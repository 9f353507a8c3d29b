use vstd::prelude::*;

verus! {

/// The text that `tabled` draws for `rows` in its rounded style: one line of
/// the drawing for each line of text in the rows, columns as wide as their
/// widest cell, a rule under the first row, and a frame with rounded corners.
pub uninterp spec fn rounded_table(rows: Seq<Seq<Seq<char>>>) -> Seq<char>;

/// Draws `rows` with `tabled`: `Builder::from` takes the rows as they are,
/// `build` makes the table, `Style::rounded` is applied to it and
/// `to_string` gives the drawing. The drawing depends on the rows alone.
#[verifier::external_body]
pub(crate) fn render_rounded(rows: &Vec<Vec<String>>) -> (text: String)
    requires
        rows.len() > 0,
        forall|i: int| 0 <= i < rows.len() ==> (#[trigger] rows[i]).len() == 2,
    ensures
        text@ == rounded_table(rows.deep_view()),
{
    let mut table = tabled::builder::Builder::from(rows.clone()).build();
    table.with(tabled::settings::Style::rounded());
    table.to_string()
}

} // verus!
