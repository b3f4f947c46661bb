//! The tag store: the queue of tags waiting to be written, the mapping from
//! query parameters to table columns, and the SQL statements that read and
//! write the table.

pub mod constants;

use vstd::prelude::*;
use vstd::string::*;
use crossbeam::sync::SegQueue;
use crate::server::tag::{TagRequest, log_entry_text};
use crate::str_map::{
    StrMap, string_pairs, sorted_insert, char_seq_lt, keys_ascending, lemma_view_pairs_sorted_insert,
    lemma_view_pairs_ascending, lemma_ascending_keys_distinct,
};
use crate::text::{
    join, seq_join, string_views, occurs_in, lemma_occurs_in_context, lemma_seq_join_has_every_part,
};
use self::constants::{
    INSERT_FOR_MULTI_TAG_HEAD, INSERT_FOR_MULTI_TAG_TAIL, SELECT_ALL_TAG, SELECT_GROUP_TAG,
    SELECT_WITH_WHERE_TAG_HEAD, SELECT_WITH_WHERE_TAG_TAIL,
};

verus! {

/// The database file the service uses.
pub const DB_FILE_PATH: &'static str = "_SQLITE_DB";

#[verifier::external_type_specification]
#[verifier::external_body]
#[verifier::reject_recursive_types(T)]
pub struct ExSegQueue<T>(SegQueue<T>);

/// The tags held by a queue, oldest first.
pub uninterp spec fn queued_tags(q: SegQueue<TagRequest>) -> Seq<TagRequest>;

/// `crossbeam::sync::SegQueue::new`: an empty queue.
#[verifier::external_body]
pub(crate) fn new_tag_queue() -> (q: SegQueue<TagRequest>)
    ensures
        queued_tags(q) == Seq::<TagRequest>::empty(),
{
    SegQueue::new()
}

/// `crossbeam::sync::SegQueue::push`: adds the tag at the back.
#[verifier::external_body]
pub(crate) fn push_tag(q: &mut SegQueue<TagRequest>, t: TagRequest)
    ensures
        queued_tags(*final(q)) == queued_tags(*old(q)).push(t),
{
    q.push(t)
}

/// `crossbeam::sync::SegQueue::try_pop`: takes the tag at the front, or
/// gives `None` and leaves the queue as it is when it is empty. (With the
/// queue borrowed mutably no other thread pushes or pops meanwhile.)
#[verifier::external_body]
pub(crate) fn try_pop_tag(q: &mut SegQueue<TagRequest>) -> (r: Option<TagRequest>)
    ensures
        queued_tags(*old(q)).len() == 0 ==> r is None && queued_tags(*final(q)) == queued_tags(
            *old(q),
        ),
        queued_tags(*old(q)).len() > 0 ==> r == Some(queued_tags(*old(q))[0]) && queued_tags(
            *final(q),
        ) == queued_tags(*old(q)).drop_first(),
{
    q.try_pop()
}

/// The query parameters that a filtered listing understands, each with the
/// column it filters, in ascending parameter order.
pub open spec fn default_column_names() -> Seq<(Seq<char>, Seq<char>)> {
    seq![
        ("referer"@, "REFERER"@),
        ("remote_addr"@, "REMOTE_ADDR"@),
        ("tag_type"@, "TAG_TYPE"@),
        ("unique_tag"@, "UNIQUE_TAG"@),
        ("url_from"@, "URL_FROM"@),
    ]
}

/// A text with its ASCII lower-case letters made upper-case.
pub open spec fn ascii_upper(s: Seq<char>) -> Seq<char> {
    Seq::new(
        s.len(),
        |i: int|
            if 'a' <= s[i] && s[i] <= 'z' {
                ((s[i] as int) - 32) as char
            } else {
                s[i]
            },
    )
}

/// The filtered listing knows five parameters, `referer`, `remote_addr`,
/// `tag_type`, `unique_tag` and `url_from`, and each filters the column
/// named as the parameter in upper case.
pub proof fn lemma_known_parameters()
    ensures
        default_column_names().len() == 5,
        default_column_names()[0].0 == "referer"@,
        default_column_names()[1].0 == "remote_addr"@,
        default_column_names()[2].0 == "tag_type"@,
        default_column_names()[3].0 == "unique_tag"@,
        default_column_names()[4].0 == "url_from"@,
        forall|i: int|
            0 <= i < default_column_names().len() ==> (#[trigger] default_column_names()[i]).1
                == ascii_upper(default_column_names()[i].0),
{
    reveal_strlit("referer");
    reveal_strlit("REFERER");
    reveal_strlit("remote_addr");
    reveal_strlit("REMOTE_ADDR");
    reveal_strlit("tag_type");
    reveal_strlit("TAG_TYPE");
    reveal_strlit("unique_tag");
    reveal_strlit("UNIQUE_TAG");
    reveal_strlit("url_from");
    reveal_strlit("URL_FROM");
    let d = default_column_names();
    assert(d[0].1 =~= ascii_upper(d[0].0));
    assert(d[1].1 =~= ascii_upper(d[1].0));
    assert(d[2].1 =~= ascii_upper(d[2].0));
    assert(d[3].1 =~= ascii_upper(d[3].0));
    assert(d[4].1 =~= ascii_upper(d[4].0));
}

/// One condition of a filtered listing: the column equals the value.
pub open spec fn where_entry(column: Seq<char>, value: Seq<char>) -> Seq<char> {
    column + " = '"@ + value + "'"@
}

/// The conditions of a filtered listing: one for each known parameter,
/// in the order the parameters are listed, that has a value in `params`.
pub open spec fn where_entries(
    columns: Seq<(Seq<char>, Seq<char>)>,
    params: Map<Seq<char>, String>,
) -> Seq<Seq<char>>
    decreases columns.len(),
{
    if columns.len() == 0 {
        Seq::empty()
    } else {
        let prev = where_entries(columns.drop_last(), params);
        let (param, column) = columns.last();
        if params.contains_key(param) {
            prev.push(where_entry(column, params[param]@))
        } else {
            prev
        }
    }
}

/// The statement that lists the tags meeting every condition.
pub open spec fn select_where_text(entries: Seq<Seq<char>>) -> Seq<char> {
    SELECT_WITH_WHERE_TAG_HEAD@ + seq_join(entries, " AND "@) + SELECT_WITH_WHERE_TAG_TAIL@
}

/// The rows of a list of tags.
pub open spec fn log_entry_texts(tags: Seq<TagRequest>) -> Seq<Seq<char>> {
    tags.map_values(|t: TagRequest| log_entry_text(t))
}

/// The statement that stores a list of tags in one `INSERT`.
pub open spec fn insert_many_text(tags: Seq<TagRequest>) -> Seq<char> {
    INSERT_FOR_MULTI_TAG_HEAD@ + seq_join(log_entry_texts(tags), ", "@) + INSERT_FOR_MULTI_TAG_TAIL@
}

/// The conditions over a concatenation of column lists are those over each.
pub proof fn lemma_where_entries_concat(
    a: Seq<(Seq<char>, Seq<char>)>,
    b: Seq<(Seq<char>, Seq<char>)>,
    params: Map<Seq<char>, String>,
)
    ensures
        where_entries(a + b, params) == where_entries(a, params) + where_entries(b, params),
    decreases b.len(),
{
    if b.len() == 0 {
        assert(a + b =~= a);
        assert(where_entries(a, params) + where_entries(b, params) =~= where_entries(a, params));
    } else {
        lemma_where_entries_concat(a, b.drop_last(), params);
        assert((a + b).drop_last() =~= a + b.drop_last());
        assert((a + b).last() == b.last());
        let (p, c) = b.last();
        if params.contains_key(p) {
            assert(where_entries(a, params) + where_entries(b, params) =~= (where_entries(a, params)
                + where_entries(b.drop_last(), params)).push(where_entry(c, params[p]@)));
        }
    }
}

proof fn lemma_where_entries_agree(
    columns: Seq<(Seq<char>, Seq<char>)>,
    p1: Map<Seq<char>, String>,
    p2: Map<Seq<char>, String>,
)
    requires
        forall|i: int|
            0 <= i < columns.len() ==> (p1.contains_key(#[trigger] columns[i].0)
                == p2.contains_key(columns[i].0) && (p1.contains_key(columns[i].0) ==> p1[columns[i].0]
                == p2[columns[i].0])),
    ensures
        where_entries(columns, p1) == where_entries(columns, p2),
    decreases columns.len(),
{
    if columns.len() > 0 {
        let d = columns.drop_last();
        assert forall|i: int| 0 <= i < d.len() implies (p1.contains_key(#[trigger] d[i].0)
            == p2.contains_key(d[i].0) && (p1.contains_key(d[i].0) ==> p1[d[i].0] == p2[d[i].0])) by {
            assert(d[i] == columns[i]);
        }
        lemma_where_entries_agree(d, p1, p2);
        assert(columns.last() == columns[columns.len() - 1]);
    }
}

/// Giving a value to a parameter that the listing does not know leaves its
/// conditions as they are.
pub proof fn lemma_unknown_parameter_adds_nothing(
    columns: Seq<(Seq<char>, Seq<char>)>,
    params: Map<Seq<char>, String>,
    k: Seq<char>,
    v: String,
)
    requires
        forall|i: int| 0 <= i < columns.len() ==> #[trigger] columns[i].0 != k,
    ensures
        where_entries(columns, params.insert(k, v)) == where_entries(columns, params),
{
    lemma_where_entries_agree(columns, params.insert(k, v), params);
}

/// Giving a value to a known parameter that had none adds exactly its
/// condition, in the parameter's place; the others stay.
pub proof fn lemma_known_parameter_adds_its_condition(
    columns: Seq<(Seq<char>, Seq<char>)>,
    params: Map<Seq<char>, String>,
    i: int,
    v: String,
)
    requires
        keys_ascending(columns),
        0 <= i < columns.len(),
        !params.contains_key(columns[i].0),
    ensures
        where_entries(columns, params) == where_entries(columns.take(i), params) + where_entries(
            columns.skip(i + 1),
            params,
        ),
        where_entries(columns, params.insert(columns[i].0, v)) == where_entries(
            columns.take(i),
            params,
        ) + seq![where_entry(columns[i].1, v@)] + where_entries(columns.skip(i + 1), params),
{
    let k = columns[i].0;
    let p2 = params.insert(k, v);
    let front = columns.take(i);
    let mid = seq![columns[i]];
    let back = columns.skip(i + 1);
    assert(columns =~= front + mid + back);
    lemma_where_entries_concat(front + mid, back, params);
    lemma_where_entries_concat(front, mid, params);
    lemma_where_entries_concat(front + mid, back, p2);
    lemma_where_entries_concat(front, mid, p2);
    assert forall|j: int| 0 <= j < front.len() implies #[trigger] front[j].0 != k by {
        lemma_ascending_keys_distinct(columns, j, i);
    }
    assert forall|j: int| 0 <= j < back.len() implies #[trigger] back[j].0 != k by {
        lemma_ascending_keys_distinct(columns, j + i + 1, i);
    }
    lemma_unknown_parameter_adds_nothing(front, params, k, v);
    lemma_unknown_parameter_adds_nothing(back, params, k, v);
    let e = Seq::<(Seq<char>, Seq<char>)>::empty();
    assert(mid.drop_last() =~= e);
    assert(where_entries(e, params) =~= Seq::<Seq<char>>::empty());
    assert(where_entries(e, p2) =~= Seq::<Seq<char>>::empty());
    assert(mid.last() == columns[i]);
    assert(p2.contains_key(k) && p2[k] == v);
    assert(where_entries(mid, params) =~= Seq::<Seq<char>>::empty());
    assert(where_entries(mid, p2) =~= seq![where_entry(columns[i].1, v@)]);
    assert(where_entries(front, params) + Seq::<Seq<char>>::empty() =~= where_entries(front, params));
}

/// Every known parameter that has a value gives its condition.
proof fn lemma_where_entries_has_condition(
    columns: Seq<(Seq<char>, Seq<char>)>,
    params: Map<Seq<char>, String>,
    i: int,
)
    requires
        0 <= i < columns.len(),
        params.contains_key(columns[i].0),
    ensures
        where_entries(columns, params).contains(
            columns[i].1 + " = '"@ + params[columns[i].0]@ + "'"@,
        ),
    decreases columns.len(),
{
    let w = where_entries(columns, params);
    if i == columns.len() - 1 {
        assert(w.last() == columns[i].1 + " = '"@ + params[columns[i].0]@ + "'"@);
        assert(w[w.len() - 1] == w.last());
    } else {
        let d = columns.drop_last();
        assert(d[i] == columns[i]);
        lemma_where_entries_has_condition(d, params, i);
        let prev = where_entries(d, params);
        let k = choose|k: int| 0 <= k < prev.len() && prev[k] == columns[i].1 + " = '"@
            + params[columns[i].0]@ + "'"@;
        assert(w[k] == prev[k]);
    }
}

/// A filtered listing filters on every known parameter given: for each
/// parameter with a column that has a value `v`, the statement holds the
/// condition `COLUMN = 'v'` whole.
pub proof fn lemma_select_where_has_every_condition(
    columns: Seq<(Seq<char>, Seq<char>)>,
    params: Map<Seq<char>, String>,
    i: int,
)
    requires
        0 <= i < columns.len(),
        params.contains_key(columns[i].0),
    ensures
        occurs_in(
            columns[i].1 + " = '"@ + params[columns[i].0]@ + "'"@,
            select_where_text(where_entries(columns, params)),
        ),
        select_where_text(where_entries(columns, params)) == SELECT_WITH_WHERE_TAG_HEAD@ + seq_join(
            where_entries(columns, params),
            " AND "@,
        ) + SELECT_WITH_WHERE_TAG_TAIL@,
{
    let c = columns[i].1 + " = '"@ + params[columns[i].0]@ + "'"@;
    let es = where_entries(columns, params);
    lemma_where_entries_has_condition(columns, params, i);
    let k = choose|k: int| 0 <= k < es.len() && es[k] == c;
    lemma_seq_join_has_every_part(es, " AND "@, k);
    lemma_occurs_in_context(c, seq_join(es, " AND "@), SELECT_WITH_WHERE_TAG_HEAD@, SELECT_WITH_WHERE_TAG_TAIL@);
}

/// One line of the grouped listing: how many stored tags share a kind, a
/// tag, a referer and an address.
pub struct GroupedTag {
    pub count: i64,
    pub tag_type: String,
    pub unique_tag: String,
    pub referer: String,
    pub remote_addr: String,
}

impl GroupedTag {
    /// A line of the grouped listing from its row's five columns.
    pub fn new(
        count: i64,
        tag_type: String,
        unique_tag: String,
        referer: String,
        remote_addr: String,
    ) -> (g: GroupedTag)
        ensures
            g.count == count,
            g.tag_type == tag_type,
            g.unique_tag == unique_tag,
            g.referer == referer,
            g.remote_addr == remote_addr,
    {
        GroupedTag { count, tag_type, unique_tag, referer, remote_addr }
    }
}

/// The store's state in the service: the database file's path, the queue
/// of tags waiting to be written, and the columns that listings filter on.
pub struct DbController {
    pub file_path_string: String,
    pub ms_queue: SegQueue<TagRequest>,
    pub param_name_to_column_name: StrMap<String>,
}

impl DbController {
    /// The parameters that filtered listings understand with their columns,
    /// in ascending parameter order.
    pub open spec fn column_names(&self) -> Seq<(Seq<char>, Seq<char>)> {
        string_pairs(self.param_name_to_column_name)
    }

    /// The store for the database at `file_path_str`, with no tag waiting.
    pub fn new(file_path_str: &str) -> (dbc: DbController)
        ensures
            dbc.file_path_string@ == file_path_str@,
            queued_tags(dbc.ms_queue) == Seq::<TagRequest>::empty(),
            dbc.column_names() == default_column_names(),
    {
        DbController {
            file_path_string: String::from_str(file_path_str),
            ms_queue: new_tag_queue(),
            param_name_to_column_name: init_columns_wanted(),
        }
    }

    /// The statement listing the tags whose columns equal the values given
    /// for the known parameters; parameters it does not know are ignored.
    pub fn select_where_entries(&self, param_to_column_value: &StrMap<String>) -> (q: String)
        ensures
            keys_ascending(self.column_names()),
            q@ == select_where_text(where_entries(self.column_names(), param_to_column_value@)),
            q@ == SELECT_WITH_WHERE_TAG_HEAD@ + seq_join(
                where_entries(self.column_names(), param_to_column_value@),
                " AND "@,
            ) + SELECT_WITH_WHERE_TAG_TAIL@,
            forall|i: int|
                0 <= i < self.column_names().len() && param_to_column_value@.contains_key(
                    #[trigger] self.column_names()[i].0,
                ) ==> occurs_in(
                    self.column_names()[i].1 + " = '"@ + param_to_column_value@[self.column_names()[
                    i].0]@ + "'"@,
                    q@,
                ),
    {
        let where_entries = generate_where_entries(
            param_to_column_value,
            &self.param_name_to_column_name,
        );
        let where_string = join(&where_entries, " AND ");
        let mut q = String::from_str(SELECT_WITH_WHERE_TAG_HEAD);
        q.append(where_string.as_str());
        q.append(SELECT_WITH_WHERE_TAG_TAIL);
        proof {
            assert forall|i: int|
                0 <= i < self.column_names().len() && param_to_column_value@.contains_key(
                    #[trigger] self.column_names()[i].0,
                ) implies occurs_in(
                self.column_names()[i].1 + " = '"@ + param_to_column_value@[self.column_names()[
                i].0]@ + "'"@,
                q@,
            ) by {
                lemma_select_where_has_every_condition(
                    self.column_names(),
                    param_to_column_value@,
                    i,
                );
            }
        }
        q
    }

    /// The statement counting the stored tags by kind, tag, referer and
    /// address.
    pub fn select_grouped_entries(&self) -> (q: String)
        ensures
            q@ == SELECT_GROUP_TAG@,
    {
        String::from_str(SELECT_GROUP_TAG)
    }

    /// The statement listing every stored tag.
    pub fn select_all_entries(&self) -> (q: String)
        ensures
            q@ == SELECT_ALL_TAG@,
    {
        String::from_str(SELECT_ALL_TAG)
    }

    /// Queues a tag to be written with the next batch.
    pub fn insert_log_entry(&mut self, tag_request: TagRequest)
        ensures
            queued_tags(final(self).ms_queue) == queued_tags(old(self).ms_queue).push(tag_request),
            final(self).file_path_string == old(self).file_path_string,
            final(self).column_names() == old(self).column_names(),
    {
        push_tag(&mut self.ms_queue, tag_request);
    }

    /// The statement that stores all of `tag_request_list`, in order, in one
    /// `INSERT`.
    pub fn insert_many_log_to_db(&self, tag_request_list: Vec<TagRequest>) -> (q: String)
        ensures
            q@ == insert_many_text(tag_request_list@),
    {
        let n = tag_request_list.len();
        let mut results: Vec<String> = Vec::new();
        let mut i: usize = 0;
        while i < n
            invariant
                n == tag_request_list@.len(),
                i <= n,
                results@.len() == i,
                forall|j: int|
                    0 <= j < i ==> #[trigger] results@[j]@ == log_entry_text(tag_request_list@[j]),
            decreases n - i,
        {
            results.push(tag_request_list[i].log_entry_to_string());
            i = i + 1;
        }
        proof {
            assert(string_views(results@) =~= log_entry_texts(tag_request_list@));
        }
        let to_insert = join(&results, ", ");
        let mut q = String::from_str(INSERT_FOR_MULTI_TAG_HEAD);
        q.append(to_insert.as_str());
        q.append(INSERT_FOR_MULTI_TAG_TAIL);
        q
    }
}

/// The conditions of a filtered listing, one per known parameter that has
/// a value, in ascending parameter order.
pub fn generate_where_entries(
    param_to_column_value: &StrMap<String>,
    param_name_to_column_name: &StrMap<String>,
) -> (entries: Vec<String>)
    ensures
        keys_ascending(string_pairs(*param_name_to_column_name)),
        string_views(entries@) == where_entries(
            string_pairs(*param_name_to_column_name),
            param_to_column_value@,
        ),
        forall|i: int|
            0 <= i < string_pairs(*param_name_to_column_name).len()
                && param_to_column_value@.contains_key(
                #[trigger] string_pairs(*param_name_to_column_name)[i].0,
            ) ==> string_views(entries@).contains(
                string_pairs(*param_name_to_column_name)[i].1 + " = '"@
                    + param_to_column_value@[string_pairs(*param_name_to_column_name)[i].0]@
                    + "'"@,
            ),
{
    let ghost columns = string_pairs(*param_name_to_column_name);
    let n = param_name_to_column_name.len();
    proof {
        lemma_view_pairs_ascending(param_name_to_column_name.pairs());
    }
    let mut entries: Vec<String> = Vec::new();
    let mut i: usize = 0;
    proof {
        assert(columns.take(0) =~= Seq::<(Seq<char>, Seq<char>)>::empty());
        assert(string_views(entries@) =~= Seq::<Seq<char>>::empty());
    }
    while i < n
        invariant
            n == columns.len(),
            columns == string_pairs(*param_name_to_column_name),
            i <= n,
            string_views(entries@) == where_entries(columns.take(i as int), param_to_column_value@),
        decreases n - i,
    {
        let param_name = param_name_to_column_name.key_at(i);
        let column_name = param_name_to_column_name.value_at(i);
        proof {
            assert(columns.take(i + 1).drop_last() =~= columns.take(i as int));
            assert(columns.take(i + 1).last() == (param_name@, column_name@));
        }
        match param_to_column_value.get(param_name.as_str()) {
            Some(column_value) => {
                let mut e = column_name.clone();
                e.append(" = '");
                e.append(column_value.as_str());
                e.append("'");
                entries.push(e);
                proof {
                    assert(string_views(entries@) =~= where_entries(
                        columns.take(i as int),
                        param_to_column_value@,
                    ).push(where_entry(column_name@, column_value@)));
                }
            },
            None => {},
        }
        i = i + 1;
    }
    proof {
        assert(columns.take(n as int) =~= columns);
        assert forall|i: int|
            0 <= i < columns.len() && param_to_column_value@.contains_key(
                #[trigger] columns[i].0,
            ) implies string_views(entries@).contains(
            columns[i].1 + " = '"@ + param_to_column_value@[columns[i].0]@ + "'"@,
        ) by {
            lemma_where_entries_has_condition(columns, param_to_column_value@, i);
        }
    }
    entries
}

/// The parameters that filtered listings understand, with their columns.
fn init_columns_wanted() -> (m: StrMap<String>)
    ensures
        string_pairs(m) == default_column_names(),
{
    let mut m: StrMap<String> = StrMap::new();
    insert_column(&mut m, "tag_type", "TAG_TYPE");
    let ghost p1 = string_pairs(m);
    insert_column(&mut m, "remote_addr", "REMOTE_ADDR");
    let ghost p2 = string_pairs(m);
    insert_column(&mut m, "unique_tag", "UNIQUE_TAG");
    let ghost p3 = string_pairs(m);
    insert_column(&mut m, "url_from", "URL_FROM");
    let ghost p4 = string_pairs(m);
    insert_column(&mut m, "referer", "REFERER");
    proof {
        lemma_default_columns_order();
        reveal_with_fuel(sorted_insert, 5);
        let tt = ("tag_type"@, "TAG_TYPE"@);
        let ra = ("remote_addr"@, "REMOTE_ADDR"@);
        let ut = ("unique_tag"@, "UNIQUE_TAG"@);
        let uf = ("url_from"@, "URL_FROM"@);
        assert(p1 =~= seq![tt]);
        assert(p1.skip(1) =~= Seq::<(Seq<char>, Seq<char>)>::empty());
        assert(p2 =~= seq![ra, tt]);
        assert(p2.skip(1) =~= seq![tt]);
        assert(p2.skip(1).skip(1) =~= Seq::<(Seq<char>, Seq<char>)>::empty());
        let e = Seq::<(Seq<char>, Seq<char>)>::empty();
        assert(sorted_insert(e, ut.0, ut.1) =~= seq![ut]);
        assert(sorted_insert(seq![tt], ut.0, ut.1) =~= seq![tt] + seq![ut]);
        assert(sorted_insert(seq![tt, ut], uf.0, uf.1) =~= seq![tt] + sorted_insert(seq![ut], uf.0, uf.1));
        assert(sorted_insert(seq![ut], uf.0, uf.1) =~= seq![ut] + seq![uf]);
        assert(p3 =~= seq![ra, tt, ut]);
        assert(p3.skip(1) =~= seq![tt, ut]);
        assert(p3.skip(1).skip(1) =~= seq![ut]);
        assert(p3.skip(1).skip(1).skip(1) =~= Seq::<(Seq<char>, Seq<char>)>::empty());
        assert(p4 =~= seq![ra, tt, ut, uf]);
        assert(string_pairs(m) =~= default_column_names());
    }
    m
}

/// Adds one parameter and its column to the map.
fn insert_column(m: &mut StrMap<String>, param: &str, column: &str)
    ensures
        string_pairs(*final(m)) == sorted_insert(string_pairs(*old(m)), param@, column@),
{
    let k = String::from_str(param);
    let v = String::from_str(column);
    proof {
        lemma_view_pairs_sorted_insert(m.pairs(), k@, v);
    }
    m.insert(k, v);
}

proof fn lemma_default_columns_order()
    ensures
        char_seq_lt("remote_addr"@, "tag_type"@),
        char_seq_lt("tag_type"@, "unique_tag"@),
        char_seq_lt("unique_tag"@, "url_from"@),
        char_seq_lt("referer"@, "remote_addr"@),
        char_seq_lt("remote_addr"@, "unique_tag"@),
        char_seq_lt("remote_addr"@, "url_from"@),
        char_seq_lt("tag_type"@, "url_from"@),
        "remote_addr"@ != "tag_type"@,
        "unique_tag"@ != "tag_type"@,
        "unique_tag"@ != "remote_addr"@,
        "url_from"@ != "remote_addr"@,
        "url_from"@ != "tag_type"@,
        "url_from"@ != "unique_tag"@,
        "referer"@ != "remote_addr"@,
        !char_seq_lt("tag_type"@, "remote_addr"@),
        !char_seq_lt("remote_addr"@, "referer"@),
{
    reveal_strlit("remote_addr");
    reveal_strlit("tag_type");
    reveal_strlit("unique_tag");
    reveal_strlit("url_from");
    reveal_strlit("referer");
    reveal_with_fuel(char_seq_lt, 4);
}

} // verus!
