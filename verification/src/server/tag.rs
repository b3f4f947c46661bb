//! Tag kinds and tag requests: what one visit records, and the text of its
//! row in the `INSERT` statement that stores it.

use vstd::prelude::*;
use vstd::string::*;
use crate::text::{escape_sql_quotes, sql_escape, sql_unescape, str_eq, lemma_sql_escape_round_trip};

verus! {

/// The kind of visit a tag records.
#[allow(non_camel_case_types)]
#[derive(Clone, Copy, Debug, PartialEq, Eq, Structural)]
pub enum TagType {
    TagPost,
    TagGet,
    ImgGet,
    SeeAllList,
    SeeGroupList,
    UNKNOWN,
}

/// The name a tag kind is written under: the variant's name.
pub open spec fn tag_type_name(t: TagType) -> Seq<char> {
    match t {
        TagType::TagPost => "TagPost"@,
        TagType::TagGet => "TagGet"@,
        TagType::ImgGet => "ImgGet"@,
        TagType::SeeAllList => "SeeAllList"@,
        TagType::SeeGroupList => "SeeGroupList"@,
        TagType::UNKNOWN => "UNKNOWN"@,
    }
}

/// The tag kind that a name is read as; `UNKNOWN` is never read.
pub open spec fn tag_type_from_name(s: Seq<char>) -> Option<TagType> {
    if s == "TagPost"@ {
        Some(TagType::TagPost)
    } else if s == "TagGet"@ {
        Some(TagType::TagGet)
    } else if s == "ImgGet"@ {
        Some(TagType::ImgGet)
    } else if s == "SeeAllList"@ {
        Some(TagType::SeeAllList)
    } else if s == "SeeGroupList"@ {
        Some(TagType::SeeGroupList)
    } else {
        None
    }
}

/// The tag kind stored in a table row: its name read back, `UNKNOWN` for
/// any other text.
pub open spec fn tag_type_from_column(s: Seq<char>) -> TagType {
    match tag_type_from_name(s) {
        Some(t) => t,
        None => TagType::UNKNOWN,
    }
}

impl TagType {
    /// The name of the kind, as it is displayed and stored.
    pub fn to_string(&self) -> (s: String)
        ensures
            s@ == tag_type_name(*self),
    {
        match self {
            TagType::TagPost => String::from_str("TagPost"),
            TagType::TagGet => String::from_str("TagGet"),
            TagType::ImgGet => String::from_str("ImgGet"),
            TagType::SeeAllList => String::from_str("SeeAllList"),
            TagType::SeeGroupList => String::from_str("SeeGroupList"),
            TagType::UNKNOWN => String::from_str("UNKNOWN"),
        }
    }

    /// Reads a kind from its name; any other text, `"UNKNOWN"` included,
    /// is refused.
    pub fn from_str(s: &str) -> (r: Result<TagType, ()>)
        ensures
            r == (match tag_type_from_name(s@) {
                Some(t) => Ok(t),
                None => Err(()),
            }),
    {
        if str_eq(s, "TagPost") {
            Ok(TagType::TagPost)
        } else if str_eq(s, "TagGet") {
            Ok(TagType::TagGet)
        } else if str_eq(s, "ImgGet") {
            Ok(TagType::ImgGet)
        } else if str_eq(s, "SeeAllList") {
            Ok(TagType::SeeAllList)
        } else if str_eq(s, "SeeGroupList") {
            Ok(TagType::SeeGroupList)
        } else {
            Err(())
        }
    }
}

/// Every kind but `UNKNOWN` reads back from its name as itself, and a
/// stored kind (where any unreadable name stands for `UNKNOWN`) reads back
/// as itself without exception.
pub proof fn lemma_tag_type_name_round_trip(t: TagType)
    ensures
        t != TagType::UNKNOWN ==> tag_type_from_name(tag_type_name(t)) == Some(t),
        t == TagType::UNKNOWN ==> tag_type_from_name(tag_type_name(t)) is None,
        tag_type_from_column(tag_type_name(t)) == t,
{
    reveal_strlit("TagPost");
    reveal_strlit("TagGet");
    reveal_strlit("ImgGet");
    reveal_strlit("SeeAllList");
    reveal_strlit("SeeGroupList");
    reveal_strlit("UNKNOWN");
    assert("TagPost"@ != "TagGet"@) by { assert("TagPost"@.len() != "TagGet"@.len()); }
    assert("TagPost"@ != "ImgGet"@) by { assert("TagPost"@[0] != "ImgGet"@[0]); }
    assert("TagPost"@ != "SeeAllList"@) by { assert("TagPost"@.len() != "SeeAllList"@.len()); }
    assert("TagPost"@ != "SeeGroupList"@) by { assert("TagPost"@.len() != "SeeGroupList"@.len()); }
    assert("TagGet"@ != "ImgGet"@) by { assert("TagGet"@[0] != "ImgGet"@[0]); }
    assert("TagGet"@ != "SeeAllList"@) by { assert("TagGet"@.len() != "SeeAllList"@.len()); }
    assert("TagGet"@ != "SeeGroupList"@) by { assert("TagGet"@.len() != "SeeGroupList"@.len()); }
    assert("ImgGet"@ != "SeeAllList"@) by { assert("ImgGet"@.len() != "SeeAllList"@.len()); }
    assert("ImgGet"@ != "SeeGroupList"@) by { assert("ImgGet"@.len() != "SeeGroupList"@.len()); }
    assert("SeeAllList"@ != "SeeGroupList"@) by { assert("SeeAllList"@.len() != "SeeGroupList"@.len()); }
    assert("UNKNOWN"@ != "TagPost"@) by { assert("UNKNOWN"@[0] != "TagPost"@[0]); }
    assert("UNKNOWN"@ != "TagGet"@) by { assert("UNKNOWN"@[0] != "TagGet"@[0]); }
    assert("UNKNOWN"@ != "ImgGet"@) by { assert("UNKNOWN"@[0] != "ImgGet"@[0]); }
    assert("UNKNOWN"@ != "SeeAllList"@) by { assert("UNKNOWN"@.len() != "SeeAllList"@.len()); }
    assert("UNKNOWN"@ != "SeeGroupList"@) by { assert("UNKNOWN"@.len() != "SeeGroupList"@.len()); }
}

/// One visit, as it is queued and stored.
pub struct TagRequest {
    pub tag_type: TagType,
    pub tag: String,
    pub url: String,
    pub referer: String,
    pub headers: String,
    pub created_at: String,
    pub remote_addr: String,
}

/// The tag a request records: the route's `given-tag` parameter; a fixed
/// text where the route has no such parameter, another where the request
/// carries no route parameters at all.
pub open spec fn chosen_tag(given_tag: Option<Option<Seq<char>>>) -> Seq<char> {
    match given_tag {
        Some(Some(t)) => t,
        Some(None) => "PARAM BUT NO TAG"@,
        None => "Router extention missing"@,
    }
}

/// The views of an optional optional string.
pub open spec fn option_option_view(o: Option<Option<String>>) -> Option<Option<Seq<char>>> {
    match o {
        Some(Some(s)) => Some(Some(s@)),
        Some(None) => Some(None),
        None => None,
    }
}

/// The row text of one tag inside `INSERT ... VALUES`: the kind's name, the
/// time, the address, then the tag, the URL, the referer and the headers,
/// each in single quotes; quotes are doubled in the tag, the URL and the
/// headers, the other fields go in as they are.
pub open spec fn log_entry_text(r: TagRequest) -> Seq<char> {
    "\n(\n  '"@ + tag_type_name(r.tag_type) + "', '"@ + r.created_at@ + "', '"@ + r.remote_addr@
        + "',\n  '"@ + sql_escape(r.tag@) + "',\n  '"@ + sql_escape(r.url@) + "', '"@
        + r.referer@ + "', '"@ + sql_escape(r.headers@) + "')\n"@
}

/// A given tag parameter is recorded whole, as it came.
pub proof fn lemma_given_tag_kept(t: Seq<char>)
    ensures
        chosen_tag(Some(Some(t))) == t,
{
}

/// A value inside single quotes.
pub open spec fn sql_quoted(s: Seq<char>) -> Seq<char> {
    seq!['\''] + s + seq!['\'']
}

/// The row opens with the tag's own kind in its first field, which reads
/// back as that kind.
pub proof fn lemma_row_starts_with_kind(r: TagRequest)
    ensures
        log_entry_text(r).take(("\n(\n  '"@ + tag_type_name(r.tag_type) + "', '"@).len() as int)
            == "\n(\n  '"@ + tag_type_name(r.tag_type) + "', '"@,
        tag_type_from_column(tag_type_name(r.tag_type)) == r.tag_type,
{
    let p = "\n(\n  '"@ + tag_type_name(r.tag_type) + "', '"@;
    let t = log_entry_text(r);
    assert(t.take(p.len() as int) =~= p);
    lemma_tag_type_name_round_trip(r.tag_type);
}

/// The row lists, each in single quotes and in the order of the columns
/// `TAG_TYPE, CREATED_AT, REMOTE_ADDR, UNIQUE_TAG, URL_FROM, REFERER,
/// HEADERS`: the kind's name, the time, the address, the tag, the URL, the
/// referer and the headers; quotes are doubled in the tag, URL and headers.
pub proof fn lemma_row_fields_in_column_order(r: TagRequest)
    ensures
        log_entry_text(r) == "\n(\n  "@ + sql_quoted(tag_type_name(r.tag_type)) + ", "@ + sql_quoted(
            r.created_at@,
        ) + ", "@ + sql_quoted(r.remote_addr@) + ",\n  "@ + sql_quoted(sql_escape(r.tag@))
            + ",\n  "@ + sql_quoted(sql_escape(r.url@)) + ", "@ + sql_quoted(r.referer@) + ", "@
            + sql_quoted(sql_escape(r.headers@)) + ")\n"@,
{
    reveal_strlit("\n(\n  '");
    reveal_strlit("', '");
    reveal_strlit("',\n  '");
    reveal_strlit("')\n");
    reveal_strlit("\n(\n  ");
    reveal_strlit(", ");
    reveal_strlit(",\n  ");
    reveal_strlit(")\n");
    assert(log_entry_text(r) =~= "\n(\n  "@ + sql_quoted(tag_type_name(r.tag_type)) + ", "@
        + sql_quoted(r.created_at@) + ", "@ + sql_quoted(r.remote_addr@) + ",\n  "@ + sql_quoted(
        sql_escape(r.tag@),
    ) + ",\n  "@ + sql_quoted(sql_escape(r.url@)) + ", "@ + sql_quoted(r.referer@) + ", "@
        + sql_quoted(sql_escape(r.headers@)) + ")\n"@);
}

fn choose_tag(given_tag: Option<Option<String>>) -> (t: String)
    ensures
        t@ == chosen_tag(option_option_view(given_tag)),
        given_tag matches Some(Some(g)) ==> t == g,
{
    match given_tag {
        Some(Some(t)) => t,
        Some(None) => String::from_str("PARAM BUT NO TAG"),
        None => String::from_str("Router extention missing"),
    }
}

impl TagRequest {
    /// The record of one visit, from what the request carried: the route's
    /// parameters (`None` where the request has none, `Some(None)` where
    /// they lack `given-tag`), the URL, the referer and headers as text,
    /// the arrival time and the client's address.
    pub fn new(
        tag_type: TagType,
        given_tag: Option<Option<String>>,
        url: String,
        referer: String,
        headers: String,
        created_at: String,
        remote_addr: String,
    ) -> (r: TagRequest)
        ensures
            r.tag_type == tag_type,
            r.tag@ == chosen_tag(option_option_view(given_tag)),
            given_tag matches Some(Some(t)) ==> r.tag == t,
            r.url == url,
            r.referer == referer,
            r.headers == headers,
            r.created_at == created_at,
            r.remote_addr == remote_addr,
    {
        TagRequest {
            tag_type,
            tag: choose_tag(given_tag),
            url,
            referer,
            headers,
            created_at,
            remote_addr,
        }
    }

    /// As `new`, but the referer is the one the client posted in the body
    /// in place of the request's own `Referer` header.
    pub fn new_with_separate_referer(
        tag_type: TagType,
        given_tag: Option<Option<String>>,
        url: String,
        posted_referer: String,
        headers: String,
        created_at: String,
        remote_addr: String,
    ) -> (r: TagRequest)
        ensures
            r.tag_type == tag_type,
            r.tag@ == chosen_tag(option_option_view(given_tag)),
            given_tag matches Some(Some(t)) ==> r.tag == t,
            r.url == url,
            r.referer == posted_referer,
            r.headers == headers,
            r.created_at == created_at,
            r.remote_addr == remote_addr,
    {
        let mut r = TagRequest::new(
            tag_type,
            given_tag,
            url,
            String::new(),
            headers,
            created_at,
            remote_addr,
        );
        r.referer = posted_referer;
        r
    }

    /// A stored tag from its table row's columns `TAG_TYPE`, `UNIQUE_TAG`,
    /// `URL_FROM`, `REFERER`, `HEADERS`, `CREATED_AT`, `REMOTE_ADDR`; a kind
    /// that does not read back is `UNKNOWN`.
    pub fn from_row(
        tag_type: &str,
        tag: String,
        url: String,
        referer: String,
        headers: String,
        created_at: String,
        remote_addr: String,
    ) -> (r: TagRequest)
        ensures
            r.tag_type == tag_type_from_column(tag_type@),
            r.tag == tag,
            r.url == url,
            r.referer == referer,
            r.headers == headers,
            r.created_at == created_at,
            r.remote_addr == remote_addr,
    {
        let tag_type = match TagType::from_str(tag_type) {
            Ok(t) => t,
            Err(()) => TagType::UNKNOWN,
        };
        TagRequest { tag_type, tag, url, referer, headers, created_at, remote_addr }
    }

    /// The row text of this tag inside `INSERT ... VALUES`.
    pub fn log_entry_to_string(&self) -> (s: String)
        ensures
            s@ == log_entry_text(*self),
            s@.take(("\n(\n  '"@ + tag_type_name(self.tag_type) + "', '"@).len() as int) == "\n(\n  '"@
                + tag_type_name(self.tag_type) + "', '"@,
    {
        let mut s = String::from_str("\n(\n  '");
        s.append(self.tag_type.to_string().as_str());
        s.append("', '");
        s.append(self.created_at.as_str());
        s.append("', '");
        s.append(self.remote_addr.as_str());
        s.append("',\n  '");
        s.append(escape_sql_quotes(self.tag.as_str()).as_str());
        s.append("',\n  '");
        s.append(escape_sql_quotes(self.url.as_str()).as_str());
        s.append("', '");
        s.append(self.referer.as_str());
        s.append("', '");
        s.append(escape_sql_quotes(self.headers.as_str()).as_str());
        s.append("')\n");
        proof {
            lemma_row_starts_with_kind(*self);
        }
        s
    }
}

/// What the table keeps of a tag reads back as the tag: the kind through
/// its name, and the quoted fields through the quote doubling.
pub proof fn lemma_stored_tag_reads_back(r: TagRequest)
    ensures
        tag_type_from_column(tag_type_name(r.tag_type)) == r.tag_type,
        sql_unescape(sql_escape(r.tag@)) == r.tag@,
        sql_unescape(sql_escape(r.url@)) == r.url@,
        sql_unescape(sql_escape(r.headers@)) == r.headers@,
{
    lemma_tag_type_name_round_trip(r.tag_type);
    lemma_sql_escape_round_trip(r.tag@);
    lemma_sql_escape_round_trip(r.url@);
    lemma_sql_escape_round_trip(r.headers@);
}

} // verus!
