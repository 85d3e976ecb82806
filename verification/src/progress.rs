//! What progress bars show.
use crate::text::to_decimal;
use vstd::prelude::*;
use vstd::string::*;

verus! {

/// What a progress bar is made with.
#[derive(Debug)]
pub struct Bar {
    /// The position at which the bar is full.
    pub total: usize,
    pub prefix: String,
    pub suffix: String,
}

/// One update of a progress bar.
#[derive(Debug)]
pub struct BarUpdate {
    pub position: usize,
    pub message: String,
    pub suffix: String,
}

/// What a [`BarUpdate`] holds.
pub struct BarUpdateView {
    pub position: usize,
    pub message: Seq<char>,
    pub suffix: Seq<char>,
}

impl View for BarUpdate {
    type V = BarUpdateView;

    open spec fn view(&self) -> BarUpdateView {
        BarUpdateView { position: self.position, message: self.message@, suffix: self.suffix@ }
    }
}

/// Two numbers in decimal with `sep` between them.
pub open spec fn joined_numbers(a: usize, sep: Seq<char>, b: usize) -> Seq<char> {
    crate::text::decimal(a as nat) + sep + crate::text::decimal(b as nat)
}

/// Writes two numbers with `sep` between them.
pub fn join_numbers(a: usize, sep: &str, b: usize) -> (r: String)
    ensures
        r@ == joined_numbers(a, sep@, b),
{
    to_decimal(a as u128).concat(sep).concat(to_decimal(b as u128).as_str())
}

/// What the bar of a latency test shows: `tested/total`, and the number of good addresses.
pub open spec fn latency_update(tested: usize, success: usize, total: usize) -> BarUpdateView {
    BarUpdateView {
        position: tested,
        message: joined_numbers(tested, "/"@, total),
        suffix: crate::text::decimal(success as nat),
    }
}

/// What the bar of a download test shows: `qualified|tested`.
pub open spec fn download_update(tested: usize, qualified: usize) -> BarUpdateView {
    BarUpdateView {
        position: tested,
        message: joined_numbers(qualified, "|"@, tested),
        suffix: Seq::empty(),
    }
}

proof fn numbers_can_be_told_apart(a: usize, b: usize, sep: Seq<char>, mark: char)
    requires
        sep == seq![mark],
        !crate::text::is_digit(mark),
    ensures
        crate::text::pieces(joined_numbers(a, sep, b), mark) == seq![
            crate::text::decimal(a as nat),
            crate::text::decimal(b as nat),
        ],
{
    let x = crate::text::decimal(a as nat);
    let y = crate::text::decimal(b as nat);
    crate::text::decimals_are_read_back(a as nat);
    crate::text::decimals_are_read_back(b as nat);
    let list = seq![x, y];
    assert forall|i: int| 0 <= i < list.len() implies !(#[trigger] list[i]).contains(mark) by {
        if list[i].contains(mark) {
            let k = choose|k: int| 0 <= k < list[i].len() && list[i][k] == mark;
            assert(crate::text::is_digit(list[i][k]));
        }
    }
    crate::text::joined_texts_are_the_pieces(list, mark);
    assert(list.drop_last() == seq![x]);
    assert(crate::text::join(list.drop_last(), mark) == x);
    assert(crate::text::join(list, mark) == x.push(mark) + y);
    assert(x.push(mark) + y == joined_numbers(a, sep, b));
}

/// The bar of a latency test stands at the number of tested addresses. Its message is that number
/// and the number of all addresses, with a slash between them, and the number of good ones stands
/// behind it.
pub proof fn latency_bars_show_the_counts(tested: usize, success: usize, total: usize)
    ensures
        ({
            let update = latency_update(tested, success, total);
            let parts = crate::text::pieces(update.message, '/');
            &&& update.position == tested
            &&& parts.len() == 2
            &&& crate::text::value_of(parts[0]) == tested
            &&& crate::text::value_of(parts[1]) == total
            &&& crate::text::value_of(update.suffix) == success
            &&& parts[0] == crate::text::decimal(tested as nat)
            &&& parts[1] == crate::text::decimal(total as nat)
            &&& update.suffix == crate::text::decimal(success as nat)
        }),
{
    reveal_strlit("/");
    assert("/"@ == seq!['/']);
    numbers_can_be_told_apart(tested, total, "/"@, '/');
    crate::text::decimals_are_read_back(tested as nat);
    crate::text::decimals_are_read_back(total as nat);
    crate::text::decimals_are_read_back(success as nat);
}

/// The bar of a download test stands at the number of tested results. Its message is the number
/// of those that met the demands and that number, with a bar between them, and nothing stands
/// behind it.
pub proof fn download_bars_show_the_counts(tested: usize, qualified: usize)
    ensures
        ({
            let update = download_update(tested, qualified);
            let parts = crate::text::pieces(update.message, '|');
            &&& update.position == tested
            &&& parts.len() == 2
            &&& crate::text::value_of(parts[0]) == qualified
            &&& crate::text::value_of(parts[1]) == tested
            &&& parts[0] == crate::text::decimal(qualified as nat)
            &&& parts[1] == crate::text::decimal(tested as nat)
            &&& update.suffix.len() == 0
        }),
{
    reveal_strlit("|");
    assert("|"@ == seq!['|']);
    numbers_can_be_told_apart(qualified, tested, "|"@, '|');
    crate::text::decimals_are_read_back(tested as nat);
    crate::text::decimals_are_read_back(qualified as nat);
}

} // verus!
