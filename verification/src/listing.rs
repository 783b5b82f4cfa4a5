//! The printed form of an argument vector, as shown before a launch.

use crate::occurrence::{lemma_occurs_left, lemma_occurs_right, occurs_at};
use crate::text::{texts, Text};
use vstd::prelude::*;
use vstd::string::*;

verus! {

/// Whether an argument is a flag: it begins with a dash.
pub open spec fn is_flag(arg: Text) -> bool {
    arg.len() > 0 && arg[0] == '-'
}

/// The line of a flag with its value: a tab, the flag, a space, the value,
/// a newline.
pub open spec fn pair_line(flag: Text, value: Text) -> Text {
    "\t"@ + flag + " "@ + value + "\n"@
}

/// The line of an argument that stands alone: a tab, the argument, a
/// newline.
pub open spec fn single_line(arg: Text) -> Text {
    "\t"@ + arg + "\n"@
}

/// Whether `args` begins with a flag and its value: a flag, followed by an
/// argument that is no flag.
pub open spec fn begins_with_pair(args: Seq<Text>) -> bool {
    args.len() >= 2 && is_flag(args[0]) && !is_flag(args[1])
}

/// The listing of `args`: every argument, in order. A flag followed by an
/// argument that is no flag shares its line with it; every other argument
/// has a line of its own.
pub open spec fn listing(args: Seq<Text>) -> Text
    decreases args.len(),
{
    if args.len() == 0 {
        Seq::empty()
    } else if begins_with_pair(args) {
        pair_line(args[0], args[1]) + listing(args.skip(2))
    } else {
        single_line(args[0]) + listing(args.skip(1))
    }
}

/// Where the argument in place `i` begins in the listing of `args`.
pub open spec fn place(args: Seq<Text>, i: int) -> int
    decreases args.len(),
{
    if i <= 0 || i >= args.len() {
        1
    } else if begins_with_pair(args) {
        if i == 1 {
            args[0].len() as int + 2
        } else {
            pair_line(args[0], args[1]).len() as int + place(args.skip(2), i - 2)
        }
    } else {
        single_line(args[0]).len() as int + place(args.skip(1), i - 1)
    }
}

/// The listing leaves nothing out.
///
/// Every argument stands in the listing, behind a tab or a space and before
/// a space or a newline, and each argument stands behind the end of the one
/// before it.
pub proof fn lemma_listing_shows_all(args: Seq<Text>, i: int)
    requires
        0 <= i < args.len(),
    ensures
        occurs_at(listing(args), args[i], place(args, i)),
        1 <= place(args, i),
        place(args, i) + args[i].len() < listing(args).len(),
        listing(args)[place(args, i) - 1] == '\t' || listing(args)[place(args, i) - 1] == ' ',
        listing(args)[place(args, i) + args[i].len()] == ' ' || listing(args)[place(args, i)
            + args[i].len()] == '\n',
        i + 1 < args.len() ==> place(args, i) + args[i].len() < place(args, i + 1),
    decreases args.len(),
{
    reveal_strlit("\t");
    reveal_strlit(" ");
    reveal_strlit("\n");
    let whole = listing(args);
    let first = args[0].len() as int;
    let own = args[i].len() as int;
    let at = place(args, i);
    if begins_with_pair(args) {
        let line = pair_line(args[0], args[1]);
        let rest = args.skip(2);
        let second = args[1].len() as int;
        assert(line.len() == first + second + 3);
        if i == 0 {
            assert(line.subrange(1, 1 + first) =~= args[0]);
            lemma_occurs_left(line, listing(rest), args[0], 1);
            assert(whole[0] == line[0]);
            assert(whole[1 + first] == line[1 + first]);
        } else if i == 1 {
            assert(line.subrange(at, at + second) =~= args[1]);
            lemma_occurs_left(line, listing(rest), args[1], at);
            assert(whole[at - 1] == line[at - 1]);
            assert(whole[at + second] == line[at + second]);
            if args.len() > 2 {
                assert(place(args, 2) == line.len() + place(rest, 0));
            }
        } else {
            let inner = place(rest, i - 2);
            lemma_listing_shows_all(rest, i - 2);
            assert(rest[i - 2] == args[i]);
            lemma_occurs_right(line, listing(rest), args[i], inner);
            assert(whole[at - 1] == listing(rest)[inner - 1]);
            assert(whole[at + own] == listing(rest)[inner + own]);
            if i + 1 < args.len() {
                assert(rest[i - 1] == args[i + 1]);
            }
        }
    } else {
        let line = single_line(args[0]);
        let rest = args.skip(1);
        assert(line.len() == first + 2);
        if i == 0 {
            assert(line.subrange(1, 1 + first) =~= args[0]);
            lemma_occurs_left(line, listing(rest), args[0], 1);
            assert(whole[0] == line[0]);
            assert(whole[1 + first] == line[1 + first]);
            if args.len() > 1 {
                assert(place(args, 1) == line.len() + place(rest, 0));
            }
        } else {
            let inner = place(rest, i - 1);
            lemma_listing_shows_all(rest, i - 1);
            assert(rest[i - 1] == args[i]);
            lemma_occurs_right(line, listing(rest), args[i], inner);
            assert(whole[at - 1] == listing(rest)[inner - 1]);
            assert(whole[at + own] == listing(rest)[inner + own]);
            if i + 1 < args.len() {
                assert(rest[i] == args[i + 1]);
            }
        }
    }
}

/// Whether `args` is made of pairs: a flag, then a value that is no flag.
pub open spec fn is_paired(args: Seq<Text>) -> bool {
    &&& args.len() % 2 == 0
    &&& forall|k: int|
        0 <= k < args.len() / 2 ==> is_flag(#[trigger] args[2 * k]) && !is_flag(args[2 * k + 1])
}

/// One line for each pair of `args`, in order.
pub open spec fn pair_lines(args: Seq<Text>) -> Text
    decreases args.len(),
{
    if args.len() < 2 {
        Seq::empty()
    } else {
        pair_line(args[0], args[1]) + pair_lines(args.skip(2))
    }
}

/// Arguments that are made of pairs are listed pair by pair: one line for
/// each, in order, and nothing else.
pub proof fn lemma_listing_of_pairs(args: Seq<Text>)
    requires
        is_paired(args),
    ensures
        listing(args) == pair_lines(args),
    decreases args.len(),
{
    if args.len() > 0 {
        let rest = args.skip(2);
        assert(is_flag(args[2 * 0int]));
        assert forall|k: int| 0 <= k < rest.len() / 2 implies is_flag(#[trigger] rest[2 * k])
            && !is_flag(rest[2 * k + 1]) by {
            assert(rest[2 * k] == args[2 * (k + 1)]);
            assert(rest[2 * k + 1] == args[2 * (k + 1) + 1]);
        }
        lemma_listing_of_pairs(rest);
    }
}

/// Whether `arg` begins with a dash.
pub fn starts_with_dash(arg: &str) -> (flag: bool)
    ensures
        flag == is_flag(arg@),
{
    !arg.is_empty() && arg.get_char(0) == '-'
}

/// The text that shows `args` before a launch: every argument, in order,
/// each flag on one line with the value that follows it.
pub fn render_listing(args: &Vec<String>) -> (text: String)
    ensures
        text@ == listing(texts(args@)),
{
    let ghost all = texts(args@);
    let mut text = String::new();
    let mut i: usize = 0;
    assert(all.skip(0) == all);
    while i < args.len()
        invariant
            i <= args.len(),
            all == texts(args@),
            text@ + listing(all.skip(i as int)) == listing(all),
        decreases args.len() - i,
    {
        let ghost rest = all.skip(i as int);
        assert(rest[0] == args@[i as int]@);
        let paired = if i + 1 < args.len() {
            assert(rest[1] == args@[i + 1]@);
            starts_with_dash(args[i].as_str()) && !starts_with_dash(args[i + 1].as_str())
        } else {
            false
        };
        assert(paired == begins_with_pair(rest));
        text.append("\t");
        text.append(args[i].as_str());
        if paired {
            assert(rest.skip(2) == all.skip(i + 2));
            text.append(" ");
            text.append(args[i + 1].as_str());
            text.append("\n");
            i += 2;
        } else {
            assert(rest.skip(1) == all.skip(i + 1));
            text.append("\n");
            i += 1;
        }
    }
    assert(all.skip(i as int).len() == 0);
    text
}

} // verus!
