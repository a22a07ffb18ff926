//! The records the remote search backend answers with, and the query text
//! sent to it. The transport lives with the embedding application; the shapes
//! and the query construction are verified here.
use vstd::prelude::*;

use crate::text::chars_to_string;

verus! {

/// The envelope of a backend answer.
pub struct SyResponse {
    pub code: i32,
    pub msg: String,
    pub data: Vec<SyBlock>,
}

/// One block row of the backend's database.
pub struct SyBlock {
    pub alias: String,
    /// Notebook id.
    pub box_id: String,
    /// Text content with markup stripped.
    pub content: String,
    pub created_at: String,
    pub fcontent: String,
    pub hash: String,
    pub hpath: String,
    pub ial: String,
    pub id: String,
    pub length: i32,
    pub markdown: String,
    pub memo: String,
    pub name: String,
    pub parent_id: String,
    pub path: String,
    pub root_id: String,
    pub sort: i32,
    pub subtype: String,
    pub tag: String,
    pub block_type: String,
    pub updated: String,
}

/// The kinds of block the backend distinguishes.
#[derive(Debug, Clone, Copy, PartialEq, Eq, Structural)]
pub enum SyBlockType {
    Document,
    Title,
    List,
    ListItem,
    Quote,
    SuperBlock,
    Paragraph,
    Code,
    Method,
    Table,
    DataBlock,
    QueryEmbed,
    Video,
    Audio,
    Widget,
    IFrame,
    Html,
    Tb,
}

/// One search hit as the search box keeps it.
#[derive(Debug)]
pub struct SearchResultItem {
    pub id: String,
    pub box_id: String,
    pub content: String,
    pub path: String,
    pub hpath: String,
}

/// The SQL text that a title search sends: the query between the wildcards,
/// documents only, at most twenty rows.
pub open spec fn spec_search_sql(title: Seq<char>) -> Seq<char> {
    "SELECT * FROM blocks WHERE content LIKE '%"@ + title
        + "%' and type='d' LIMIT 20"@
}

/// Build the SQL statement that searches documents by title.
pub fn build_search_sql(title: &Vec<char>) -> (r: String)
    ensures
        r@ == spec_search_sql(title@),
{
    let mut r = String::from_str("SELECT * FROM blocks WHERE content LIKE '%");
    let mid = chars_to_string(title);
    r.append(mid.as_str());
    r.append("%' and type='d' LIMIT 20");
    proof {
        assert(r@ =~= spec_search_sql(title@));
    }
    r
}

/// The rows of a backend answer, reduced to what the search box shows.
pub fn results_from_response(resp: &SyResponse) -> (r: Vec<SearchResultItem>)
    ensures
        r@.len() == resp.data@.len(),
        forall|i: int|
            0 <= i < r@.len() ==> {
                &&& (#[trigger] r@[i]).id@ == resp.data@[i].id@
                &&& r@[i].box_id@ == resp.data@[i].box_id@
                &&& r@[i].content@ == resp.data@[i].content@
                &&& r@[i].path@ == resp.data@[i].path@
                &&& r@[i].hpath@ == resp.data@[i].hpath@
            },
{
    let mut r: Vec<SearchResultItem> = Vec::new();
    let mut i: usize = 0;
    while i < resp.data.len()
        invariant
            i <= resp.data@.len(),
            r@.len() == i,
            forall|j: int|
                0 <= j < i ==> {
                    &&& (#[trigger] r@[j]).id@ == resp.data@[j].id@
                    &&& r@[j].box_id@ == resp.data@[j].box_id@
                    &&& r@[j].content@ == resp.data@[j].content@
                    &&& r@[j].path@ == resp.data@[j].path@
                    &&& r@[j].hpath@ == resp.data@[j].hpath@
                },
        decreases resp.data@.len() - i,
    {
        let b = &resp.data[i];
        r.push(
            SearchResultItem {
                id: b.id.clone(),
                box_id: b.box_id.clone(),
                content: b.content.clone(),
                path: b.path.clone(),
                hpath: b.hpath.clone(),
            },
        );
        i = i + 1;
    }
    r
}

} // verus!
