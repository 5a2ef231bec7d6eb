//! Laws of texts and of documents: what trimming leaves, that a number reads back from its numeral,
//! that split parts join again, how texts are ordered, and which member a name finds.
use crate::json::{find_member, JsonTree};
use crate::text::{
    ascii_lowered, blank, bytes_at_most, decimal, digits_value, is_digit, parsed_u64, split_on,
    starts_with, trimmed, trimmed_end, trimmed_start, unsigned_digits, white_space, without_hyphens,
};
use vstd::prelude::*;

verus! {

proof fn lemma_start(s: Seq<char>)
    ensures
        trimmed_start(s).len() <= s.len(),
        trimmed_start(s) == s.skip(s.len() - trimmed_start(s).len()),
        forall|i: int| 0 <= i < s.len() - trimmed_start(s).len() ==> white_space(#[trigger] s[i]),
        trimmed_start(s).len() > 0 ==> !white_space(trimmed_start(s)[0]),
    decreases s.len(),
{
    if s.len() > 0 && white_space(s[0]) {
        let rest = s.drop_first();
        lemma_start(rest);
        let kept = trimmed_start(rest);
        assert(s.skip(s.len() - kept.len()) =~= rest.skip(rest.len() - kept.len()));
        assert forall|i: int| 0 <= i < s.len() - kept.len() implies white_space(#[trigger] s[i]) by {
            if i > 0 {
                assert(rest[i - 1] == s[i]);
                assert(white_space(rest[i - 1]));
            }
        }
    } else {
        assert(s.skip(0) =~= s);
    }
}

proof fn lemma_end(s: Seq<char>)
    ensures
        trimmed_end(s).len() <= s.len(),
        trimmed_end(s) == s.take(trimmed_end(s).len() as int),
        forall|i: int| trimmed_end(s).len() <= i < s.len() ==> white_space(#[trigger] s[i]),
        trimmed_end(s).len() > 0 ==> !white_space(trimmed_end(s).last()),
    decreases s.len(),
{
    if s.len() > 0 && white_space(s.last()) {
        let init = s.drop_last();
        lemma_end(init);
        let kept = trimmed_end(init);
        assert(s.take(kept.len() as int) =~= init.take(kept.len() as int));
        assert forall|i: int| kept.len() <= i < s.len() implies white_space(#[trigger] s[i]) by {
            if i < init.len() {
                assert(init[i] == s[i]);
                assert(white_space(init[i]));
            }
        }
    } else {
        assert(s.take(s.len() as int) =~= s);
    }
}

/// Whether a text is another between two positions, outside of which the other is white space alone
/// and at which it is not.
pub open spec fn core_of(part: Seq<char>, s: Seq<char>, from: int, to: int) -> bool {
    &&& 0 <= from <= to <= s.len()
    &&& part == s.subrange(from, to)
    &&& forall|i: int| 0 <= i < from ==> white_space(#[trigger] s[i])
    &&& forall|i: int| to <= i < s.len() ==> white_space(#[trigger] s[i])
    &&& from < to ==> !white_space(s[from]) && !white_space(s[to - 1])
}

/// Trimming leaves what stands between the white space at the two ends, and no more; a text is blank
/// exactly where it is white space alone.
pub proof fn law_trimming_takes_the_white_ends(s: Seq<char>)
    ensures
        exists|from: int, to: int| core_of(trimmed(s), s, from, to),
        blank(s) <==> forall|i: int| 0 <= i < s.len() ==> white_space(#[trigger] s[i]),
        trimmed(trimmed(s)) == trimmed(s),
{
    lemma_start(s);
    let start = trimmed_start(s);
    lemma_end(start);
    let from = s.len() - start.len();
    let to = from + trimmed(s).len();
    assert(trimmed(s) =~= s.subrange(from, to));
    assert forall|i: int| to <= i < s.len() implies white_space(#[trigger] s[i]) by {
        assert(start[i - from] == s[i]);
        assert(white_space(start[i - from]));
    }
    if trimmed(s).len() > 0 {
        assert(start[0] == s[from]);
        assert(trimmed(s).last() == s[to - 1]);
        let t = trimmed(s);
        assert(t[0] == start[0]);
        assert(trimmed_start(t) == t);
        assert(trimmed_end(t) == t);
    } else {
        assert(trimmed(s) =~= Seq::empty());
        if from < s.len() {
            assert(white_space(s[from]));
            assert(start[0] == s[from]);
        }
        assert forall|i: int| 0 <= i < s.len() implies white_space(#[trigger] s[i]) by {}
    }
    assert(core_of(trimmed(s), s, from, to));
    if forall|i: int| 0 <= i < s.len() ==> white_space(#[trigger] s[i]) {
        if trimmed(s).len() > 0 {
            assert(white_space(s[from]));
        }
    }
}

proof fn lemma_numeral(n: nat)
    ensures
        decimal(n).len() > 0,
        forall|i: int| 0 <= i < decimal(n).len() ==> is_digit(#[trigger] decimal(n)[i]),
        digits_value(decimal(n)) == n,
    decreases n,
{
    if n < 10 {
        let s = decimal(n);
        assert(s.len() == 1);
        assert(s.drop_last().len() == 0);
        assert(digits_value(s.drop_last()) == 0);
        assert(s.last() as nat == 48 + n);
    } else {
        lemma_numeral(n / 10);
        let s = decimal(n);
        let init = decimal(n / 10);
        assert(s.drop_last() =~= init);
        assert(s.last() as nat == 48 + n % 10);
        assert forall|i: int| 0 <= i < s.len() implies is_digit(#[trigger] s[i]) by {
            if i < init.len() {
                assert(s[i] == init[i]);
            }
        }
    }
}

/// A number reads back from its numeral, with a plus before it or without one; a text that holds
/// anything but digits behind that is no number.
pub proof fn law_numbers_read_back_from_their_numeral(n: u64, s: Seq<char>)
    ensures
        parsed_u64(decimal(n as nat)) == Some(n),
        parsed_u64(seq!['+'] + decimal(n as nat)) == Some(n),
        parsed_u64(Seq::<char>::empty()) is None,
        parsed_u64(s) is Some && s[0] != '+' ==> s.len() > 0 && forall|i: int|
            0 <= i < s.len() ==> '0' <= #[trigger] s[i] <= '9',
{
    lemma_numeral(n as nat);
    let numeral = decimal(n as nat);
    assert(is_digit(numeral[0]));
    assert(unsigned_digits(numeral) == numeral);
    let signed = seq!['+'] + numeral;
    assert(signed[0] == '+');
    assert(signed.drop_first() =~= numeral);
    assert(unsigned_digits(signed) == numeral);
    if parsed_u64(s) is Some && s[0] != '+' {
        assert(unsigned_digits(s) == s);
        assert forall|i: int| 0 <= i < s.len() implies '0' <= #[trigger] s[i] <= '9' by {
            assert(is_digit(s[i]));
        }
    }
}

/// Two numbers with one numeral are one number.
pub proof fn law_numerals_tell_numbers_apart(a: nat, b: nat)
    ensures
        decimal(a) == decimal(b) ==> a == b,
{
    lemma_numeral(a);
    lemma_numeral(b);
}

/// Parts with a separator between them.
pub open spec fn joined(parts: Seq<Seq<char>>, c: char) -> Seq<char>
    decreases parts.len(),
{
    if parts.len() == 0 {
        Seq::empty()
    } else if parts.len() == 1 {
        parts[0]
    } else {
        joined(parts.drop_last(), c) + seq![c] + parts.last()
    }
}

proof fn lemma_longer_last(parts: Seq<Seq<char>>, c: char, x: char)
    requires
        parts.len() > 0,
    ensures
        joined(parts.update(parts.len() - 1, parts.last().push(x)), c) == joined(parts, c).push(x),
{
    let longer = parts.update(parts.len() - 1, parts.last().push(x));
    assert(longer.drop_last() =~= parts.drop_last());
    assert(longer.last() == parts.last().push(x));
    if parts.len() > 1 {
        assert(joined(longer, c) =~= joined(parts, c).push(x));
    }
}

/// The parts of a text that is split hold no separator, and joined again they are the text.
pub proof fn law_split_parts_join_again(s: Seq<char>, c: char)
    ensures
        split_on(s, c).len() > 0,
        joined(split_on(s, c), c) == s,
        forall|i: int| 0 <= i < split_on(s, c).len() ==> !(#[trigger] split_on(s, c)[i]).contains(c),
    decreases s.len(),
{
    let parts = split_on(s, c);
    if s.len() == 0 {
        assert(joined(parts, c) =~= s);
        assert(!parts[0].contains(c));
    } else {
        let init = s.drop_last();
        law_split_parts_join_again(init, c);
        let before = split_on(init, c);
        assert(s =~= init.push(s.last()));
        if s.last() == c {
            assert(parts == before.push(Seq::empty()));
            assert(parts.drop_last() =~= before);
            assert(joined(parts, c) =~= joined(before, c).push(c));
            assert forall|i: int| 0 <= i < parts.len() implies !(#[trigger] parts[i]).contains(c) by {
                if i < before.len() {
                    assert(parts[i] == before[i]);
                }
            }
        } else {
            lemma_longer_last(before, c, s.last());
            let n = before.len() - 1;
            assert forall|i: int| 0 <= i < parts.len() implies !(#[trigger] parts[i]).contains(c) by {
                if i < n {
                    assert(parts[i] == before[i]);
                } else {
                    assert(!before[n].contains(c));
                    let piece = before[n].push(s.last());
                    if piece.contains(c) {
                        let k = choose|k: int| 0 <= k < piece.len() && piece[k] == c;
                        assert(before[n][k] == c);
                    }
                }
            }
        }
    }
}

/// Lowering changes the letters from `A` to `Z` and nothing else, one for one.
pub proof fn law_lowering_keeps_the_length(s: Seq<char>, i: int)
    requires
        0 <= i < s.len(),
    ensures
        ascii_lowered(s).len() == s.len(),
        'A' <= s[i] <= 'Z' ==> ascii_lowered(s)[i] as int == s[i] as int + 32,
        !('A' <= s[i] <= 'Z') ==> ascii_lowered(s)[i] == s[i],
{
}

/// Whether `picks` are, in order, the positions of the characters that are no hyphen and no
/// underscore.
pub open spec fn picks_letters(s: Seq<char>, picks: Seq<int>) -> bool {
    &&& forall|k: int| 0 <= k < picks.len() ==> 0 <= #[trigger] picks[k] < s.len()
    &&& forall|k: int, l: int|
        0 <= k < l < picks.len() ==> #[trigger] picks[k] < #[trigger] picks[l]
    &&& forall|k: int|
        0 <= k < picks.len() ==> s[#[trigger] picks[k]] != '-' && s[picks[k]] != '_'
    &&& forall|i: int|
        0 <= i < s.len() && #[trigger] s[i] != '-' && s[i] != '_' ==> picks.contains(i)
}

/// A text without hyphens and underscores has every other character, in order.
pub proof fn law_only_hyphens_are_left_out(s: Seq<char>)
    ensures
        exists|picks: Seq<int>|
            #[trigger] picks_letters(s, picks) && without_hyphens(s) == Seq::new(
                picks.len(),
                |k: int| s[picks[k]],
            ),
    decreases s.len(),
{
    if s.len() == 0 {
        let picks = Seq::<int>::empty();
        assert(picks_letters(s, picks));
        assert(without_hyphens(s) =~= Seq::new(picks.len(), |k: int| s[picks[k]]));
    } else {
        let init = s.drop_last();
        law_only_hyphens_are_left_out(init);
        let before = choose|picks: Seq<int>|
            #[trigger] picks_letters(init, picks) && without_hyphens(init) == Seq::new(
                picks.len(),
                |k: int| init[picks[k]],
            );
        assert(forall|i: int| 0 <= i < init.len() ==> init[i] == s[i]);
        let n = s.len() - 1;
        let picks = if s.last() == '-' || s.last() == '_' {
            before
        } else {
            before.push(n)
        };
        assert forall|i: int| 0 <= i < s.len() && #[trigger] s[i] != '-' && s[i] != '_' implies
            picks.contains(i) by {
            if i < n {
                assert(init[i] != '-' && init[i] != '_');
                let k = choose|k: int| 0 <= k < before.len() && before[k] == i;
                assert(picks[k] == i);
            } else {
                assert(picks[picks.len() - 1] == n);
            }
        }
        assert(picks_letters(s, picks));
        assert(without_hyphens(s) =~= Seq::new(picks.len(), |k: int| s[picks[k]]));
    }
}

/// A text begins with another exactly where it has the characters of the other in the first places.
pub proof fn law_beginnings_agree_in_every_place(s: Seq<char>, prefix: Seq<char>)
    ensures
        starts_with(s, prefix) <==> prefix.len() <= s.len() && forall|i: int|
            0 <= i < prefix.len() ==> s[i] == #[trigger] prefix[i],
        starts_with(s, prefix) ==> exists|rest: Seq<char>| s == #[trigger] (prefix + rest),
{
    if prefix.len() <= s.len() {
        let head = s.take(prefix.len() as int);
        if head == prefix {
            assert forall|i: int| 0 <= i < prefix.len() implies s[i] == #[trigger] prefix[i] by {
                assert(head[i] == s[i]);
            }
            assert(s =~= prefix + s.skip(prefix.len() as int));
        }
        if forall|i: int| 0 <= i < prefix.len() ==> s[i] == #[trigger] prefix[i] {
            assert(head =~= prefix);
        }
    }
}

/// Whether two sequences of bytes agree before a position.
pub open spec fn agree_before(a: Seq<u8>, b: Seq<u8>, k: int) -> bool {
    &&& 0 <= k <= a.len() && k <= b.len()
    &&& forall|i: int| 0 <= i < k ==> a[i] == #[trigger] b[i]
}

/// Bytes are ordered by the first in which they differ; a beginning comes before the whole.
pub proof fn law_bytes_are_ordered_by_their_first_difference(a: Seq<u8>, b: Seq<u8>, k: int)
    requires
        agree_before(a, b, k),
    ensures
        k < a.len() && k < b.len() && a[k] != b[k] ==> (bytes_at_most(a, b) <==> a[k] < b[k]),
        k == a.len() ==> bytes_at_most(a, b),
        k == b.len() && k < a.len() ==> !bytes_at_most(a, b),
    decreases k,
{
    if k > 0 {
        assert(a[0] == b[0]);
        let x = a.drop_first();
        let y = b.drop_first();
        assert(forall|i: int| 0 <= i < x.len() ==> x[i] == a[i + 1]);
        assert(forall|i: int| 0 <= i < y.len() ==> y[i] == b[i + 1]);
        assert forall|i: int| 0 <= i < k - 1 implies x[i] == #[trigger] y[i] by {
            assert(a[i + 1] == b[i + 1]);
        }
        law_bytes_are_ordered_by_their_first_difference(x, y, k - 1);
    }
}

proof fn lemma_member(members: Seq<(Seq<char>, JsonTree)>, key: Seq<char>)
    ensures
        match find_member(members, key) {
            Some(value) => exists|i: int| holds_first(members, key, i) && members[i].1 == value,
            None => forall|i: int| 0 <= i < members.len() ==> (#[trigger] members[i]).0 != key,
        },
    decreases members.len(),
{
    if members.len() > 0 {
        if members[0].0 == key {
            assert(holds_first(members, key, 0));
        } else {
            let rest = members.drop_first();
            lemma_member(rest, key);
            assert(forall|i: int| 0 <= i < rest.len() ==> rest[i] == members[i + 1]);
            match find_member(rest, key) {
                Some(value) => {
                    let i = choose|i: int| holds_first(rest, key, i) && rest[i].1 == value;
                    assert forall|j: int| 0 <= j < i + 1 implies (#[trigger] members[j]).0
                        != key by {
                        if j > 0 {
                            assert(rest[j - 1].0 != key);
                        }
                    }
                    assert(holds_first(members, key, i + 1));
                },
                None => {
                    assert forall|i: int| 0 <= i < members.len() implies (#[trigger] members[i]).0
                        != key by {
                        if i > 0 {
                            assert(rest[i - 1].0 != key);
                        }
                    }
                },
            }
        }
    }
}

/// Whether the member at a position is the first of a name.
pub open spec fn holds_first(members: Seq<(Seq<char>, JsonTree)>, key: Seq<char>, i: int) -> bool {
    &&& 0 <= i < members.len() && members[i].0 == key
    &&& forall|j: int| 0 <= j < i ==> (#[trigger] members[j]).0 != key
}

/// A name finds the first member that bears it, and nothing where none does; what is no object has
/// no members.
pub proof fn law_names_find_the_first_member(tree: JsonTree, key: Seq<char>)
    ensures
        tree.member(key) matches Some(value) ==> tree is Object && exists|i: int|
            holds_first(tree->Object_0, key, i) && tree->Object_0[i].1 == value,
        tree is Object && tree.member(key) is None ==> forall|i: int|
            0 <= i < tree->Object_0.len() ==> (#[trigger] tree->Object_0[i]).0 != key,
        !(tree is Object) ==> tree.member(key) is None,
{
    if tree is Object {
        lemma_member(tree->Object_0, key);
    }
}

} // verus!
