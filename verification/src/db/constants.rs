//! The SQL text that the service sends to its database.

use vstd::prelude::*;

verus! {

/// Creates the table of tags when it is missing.
pub const CREATE_TAG: &'static str = r#"
CREATE TABLE IF NOT EXISTS ATAG_TAG (
  ID INTEGER PRIMARY KEY,
  TAG_TYPE VARCHAR(255) NOT NULL,
  CREATED_AT VARCHAR(512),
  REMOTE_ADDR VARCHAR(512),
  UNIQUE_TAG VARCHAR(255) NOT NULL,
  URL_FROM VARCHAR(1024) NOT NULL,
  REFERER VARCHAR(1024) NOT NULL,
  HEADERS CLOB
)
"#;

/// Lists every stored tag.
pub const SELECT_ALL_TAG: &'static str = r#"
SELECT
  ID, TAG_TYPE, UNIQUE_TAG, 
  URL_FROM, REFERER, HEADERS,
  CREATED_AT, REMOTE_ADDR
FROM
  ATAG_TAG
"#;

/// Counts the stored tags by kind, tag, referer and address.
pub const SELECT_GROUP_TAG: &'static str = r#"
SELECT
  count(*),
  TAG_TYPE, UNIQUE_TAG, REFERER, REMOTE_ADDR
FROM
  ATAG_TAG
GROUP BY TAG_TYPE, UNIQUE_TAG, REFERER, REMOTE_ADDR
"#;

/// The text of a many-row `INSERT` before its rows.
pub const INSERT_FOR_MULTI_TAG_HEAD: &'static str = r#"
INSERT INTO ATAG_TAG (
  TAG_TYPE, CREATED_AT, REMOTE_ADDR,
  UNIQUE_TAG,
  URL_FROM, REFERER, HEADERS)
VALUES "#;

/// The text of a many-row `INSERT` after its rows.
pub const INSERT_FOR_MULTI_TAG_TAIL: &'static str = r#"
"#;

/// The text of a filtered `SELECT` before its conditions.
pub const SELECT_WITH_WHERE_TAG_HEAD: &'static str = r#"
SELECT
  ID, TAG_TYPE, UNIQUE_TAG,
  URL_FROM, REFERER, HEADERS,
  CREATED_AT, REMOTE_ADDR
FROM
  ATAG_TAG
WHERE
    "#;

/// The text of a filtered `SELECT` after its conditions.
pub const SELECT_WITH_WHERE_TAG_TAIL: &'static str = r#"
"#;

} // verus!
