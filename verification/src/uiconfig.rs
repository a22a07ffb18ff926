//! User-interface configuration values. Loading them from configuration
//! files is the embedding application's business; the shapes and the
//! built-in defaults live here.
use vstd::prelude::*;

verus! {

/// The icons shown in the gutter and in lists, one per block kind.
#[derive(Debug)]
pub struct Icons {
    pub document: String,
    pub notes: String,
    pub outline: String,
    pub head1: String,
    pub head2: String,
    pub head3: String,
    pub head4: String,
    pub head5: String,
    pub head6: String,
    pub unordered_list: String,
    pub ordered_list: String,
    pub task_list: String,
    pub paragraph: String,
    pub quote: String,
    pub code_block: String,
    pub table: String,
}

impl Default for Icons {
    /// Placeholder icons, used when no icon configuration was loaded.
    fn default() -> (r: Icons)
        ensures
            r.document@ == "?"@,
            r.notes@ == "?"@,
            r.outline@ == "?"@,
            r.head1@ == "?"@,
            r.head2@ == "?"@,
            r.head3@ == "?"@,
            r.head4@ == "?"@,
            r.head5@ == "?"@,
            r.head6@ == "?"@,
            r.unordered_list@ == "?"@,
            r.ordered_list@ == "?"@,
            r.task_list@ == "?"@,
            r.paragraph@ == "?"@,
            r.quote@ == "?"@,
            r.code_block@ == "?"@,
            r.table@ == "?"@,
    {
        Icons {
            document: String::from_str("?"),
            notes: String::from_str("?"),
            outline: String::from_str("?"),
            head1: String::from_str("?"),
            head2: String::from_str("?"),
            head3: String::from_str("?"),
            head4: String::from_str("?"),
            head5: String::from_str("?"),
            head6: String::from_str("?"),
            unordered_list: String::from_str("?"),
            ordered_list: String::from_str("?"),
            task_list: String::from_str("?"),
            paragraph: String::from_str("?"),
            quote: String::from_str("?"),
            code_block: String::from_str("?"),
            table: String::from_str("?"),
        }
    }
}

} // verus!
