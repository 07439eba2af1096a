//! How the condition of a statement is read: as alternatives, joined by `OR`, of
//! requirements, joined by `AND`, which binds more tightly.

use crate::text::{begins, joined};
use vstd::prelude::*;

verus! {

/// The place where a word first begins in a text, or the length of the text.
pub open spec fn word_place(s: Seq<char>, word: Seq<char>) -> int
    decreases s.len(),
{
    if s.len() == 0 || begins(s, word) {
        0
    } else {
        1 + word_place(s.drop_first(), word)
    }
}

/// Whether a text without `OR` holds: each of its requirements does. `truth`
/// says of a single requirement whether it holds.
pub open spec fn all_hold(s: Seq<char>, truth: spec_fn(Seq<char>) -> bool) -> bool
    decreases s.len(),
{
    let k = word_place(s, " AND "@);
    if 0 <= k && k + 5 <= s.len() {
        truth(s.take(k)) && all_hold(s.skip(k + 5), truth)
    } else {
        truth(s)
    }
}

/// Whether a condition holds: one of its alternatives does.
pub open spec fn condition_holds(s: Seq<char>, truth: spec_fn(Seq<char>) -> bool) -> bool
    decreases s.len(),
{
    let k = word_place(s, " OR "@);
    if 0 <= k && k + 4 <= s.len() {
        all_hold(s.take(k), truth) || condition_holds(s.skip(k + 4), truth)
    } else {
        all_hold(s, truth)
    }
}

/// Whether a text is a single requirement: no blank in it can begin an `AND` or
/// an `OR`.
pub open spec fn single(s: Seq<char>) -> bool {
    forall|i: int| 0 <= i < s.len() && #[trigger] s[i] == ' ' ==> i + 1 < s.len() && s[i + 1] != 'A' && s[i + 1] != 'O'
}

proof fn lemma_place_is(s: Seq<char>, word: Seq<char>, k: int)
    requires
        0 <= k <= s.len(),
        k == s.len() || begins(s.skip(k), word),
        forall|i: int| 0 <= i < k ==> !begins(#[trigger] s.skip(i), word),
    ensures
        word_place(s, word) == k,
    decreases s.len(),
{
    assert(s.skip(0) =~= s);
    if k > 0 {
        assert(!begins(s.skip(0), word));
        let rest = s.drop_first();
        assert forall|i: int| 0 <= i < k - 1 implies !begins(#[trigger] rest.skip(i), word) by {
            assert(rest.skip(i) =~= s.skip(i + 1));
        }
        assert(rest.skip(k - 1) =~= s.skip(k));
        lemma_place_is(rest, word, k - 1);
    }
}

/// The word that begins with a blank and a letter comes first behind a single
/// requirement, or nowhere where nothing follows it.
proof fn lemma_place_behind_single(a: Seq<char>, word: Seq<char>, rest: Seq<char>)
    requires
        single(a),
        word.len() >= 2,
        word[0] == ' ',
        word[1] == 'A' || word[1] == 'O',
        rest.len() == 0 || begins(rest, word),
    ensures
        word_place(a + rest, word) == a.len(),
{
    let s = a + rest;
    assert forall|i: int| 0 <= i < a.len() implies !begins(#[trigger] s.skip(i), word) by {
        if begins(s.skip(i), word) {
            assert(s.skip(i).take(word.len() as int)[0] == s[i] && s.skip(i).take(word.len() as int)[1] == s[i + 1]);
            assert(a[i] == ' ');
            assert(s[i + 1] == a[i + 1]);
        }
    }
    assert(s.skip(a.len() as int) =~= rest);
    lemma_place_is(s, word, a.len() as int);
}

proof fn lemma_joined_from_the_front(parts: Seq<Seq<char>>, sep: Seq<char>)
    requires
        parts.len() >= 2,
    ensures
        joined(parts, sep) == parts[0] + sep + joined(parts.drop_first(), sep),
    decreases parts.len(),
{
    let rest = parts.drop_first();
    if parts.len() == 2 {
        assert(parts.drop_last() =~= seq![parts[0]]);
        assert(joined(parts.drop_last(), sep) == parts[0]);
        assert(joined(rest, sep) == rest[0]);
    } else {
        lemma_joined_from_the_front(parts.drop_last(), sep);
        assert(parts.drop_last().drop_first() =~= rest.drop_last());
        assert(rest.last() == parts.last());
        assert(joined(parts, sep) =~= parts[0] + sep + joined(rest, sep));
    }
}

/// Whether every text of a list is a single requirement.
pub open spec fn all_single(parts: Seq<Seq<char>>) -> bool {
    forall|i: int| 0 <= i < parts.len() ==> single(#[trigger] parts[i])
}

/// A single requirement is read as itself.
pub proof fn lemma_single_is_read(s: Seq<char>, truth: spec_fn(Seq<char>) -> bool)
    requires
        single(s),
    ensures
        all_hold(s, truth) == truth(s),
        condition_holds(s, truth) == truth(s),
{
    reveal_strlit(" AND ");
    reveal_strlit(" OR ");
    assert(s + Seq::<char>::empty() =~= s);
    lemma_place_behind_single(s, " AND "@, Seq::empty());
    lemma_place_behind_single(s, " OR "@, Seq::empty());
}

/// Requirements that are joined by `AND` hold where all of them do.
pub proof fn lemma_and_is_read(parts: Seq<Seq<char>>, truth: spec_fn(Seq<char>) -> bool)
    requires
        parts.len() > 0,
        all_single(parts),
    ensures
        all_hold(joined(parts, " AND "@), truth) <==> forall|i: int| 0 <= i < parts.len() ==> truth(#[trigger] parts[i]),
    decreases parts.len(),
{
    reveal_strlit(" AND ");
    if parts.len() == 1 {
        lemma_single_is_read(parts[0], truth);
    } else {
        let sep = " AND "@;
        let rest = parts.drop_first();
        let tail = joined(rest, sep);
        lemma_joined_from_the_front(parts, sep);
        let s = joined(parts, sep);
        assert(s =~= parts[0] + (sep + tail));
        assert((sep + tail).take(5) =~= sep);
        lemma_place_behind_single(parts[0], sep, sep + tail);
        assert(s.take(parts[0].len() as int) =~= parts[0]);
        assert(s.skip(parts[0].len() as int + 5) =~= tail);
        assert forall|i: int| 0 <= i < rest.len() implies single(#[trigger] rest[i]) by {
            assert(rest[i] == parts[i + 1]);
        }
        lemma_and_is_read(rest, truth);
        assert(forall|i: int| 0 <= i < rest.len() ==> #[trigger] rest[i] == parts[i + 1]);
        if forall|i: int| 0 <= i < rest.len() ==> truth(#[trigger] rest[i]) {
            assert forall|i: int| 1 <= i < parts.len() implies truth(#[trigger] parts[i]) by {
                assert(truth(rest[i - 1]));
            }
        }
        if forall|i: int| 0 <= i < parts.len() ==> truth(#[trigger] parts[i]) {
            assert forall|i: int| 0 <= i < rest.len() implies truth(#[trigger] rest[i]) by {
                assert(truth(parts[i + 1]));
            }
        }
    }
}

/// Requirements that are joined by `AND` are one alternative.
pub proof fn lemma_and_without_or(parts: Seq<Seq<char>>, truth: spec_fn(Seq<char>) -> bool)
    requires
        parts.len() > 0,
        all_single(parts),
        forall|i: int| 0 <= i < parts.len() ==> (#[trigger] parts[i]).len() > 0 && parts[i][0] != 'O',
    ensures
        condition_holds(joined(parts, " AND "@), truth) == all_hold(joined(parts, " AND "@), truth),
{
    let s = joined(parts, " AND "@);
    lemma_no_or_in(parts);
    reveal_strlit(" OR ");
    assert forall|i: int| 0 <= i < s.len() implies !begins(#[trigger] s.skip(i), " OR "@) by {
        if begins(s.skip(i), " OR "@) {
            assert(s.skip(i).take(4)[0] == s[i] && s.skip(i).take(4)[1] == s[i + 1]);
        }
    }
    lemma_place_is(s, " OR "@, s.len() as int);
}

proof fn lemma_no_or_in(parts: Seq<Seq<char>>)
    requires
        parts.len() > 0,
        all_single(parts),
        forall|i: int| 0 <= i < parts.len() ==> (#[trigger] parts[i]).len() > 0 && parts[i][0] != 'O',
    ensures
        ({
            let s = joined(parts, " AND "@);
            forall|i: int| 0 <= i < s.len() && #[trigger] s[i] == ' ' ==> i + 1 < s.len() && s[i + 1] != 'O'
        }),
    decreases parts.len(),
{
    let s = joined(parts, " AND "@);
    if parts.len() == 1 {
        assert(single(parts[0]));
    } else {
        reveal_strlit(" AND ");
        let front = parts.drop_last();
        assert forall|i: int| 0 <= i < front.len() implies single(#[trigger] front[i]) && front[i].len() > 0
            && front[i][0] != 'O' by {
            assert(front[i] == parts[i]);
        }
        lemma_no_or_in(front);
        let t = joined(front, " AND "@);
        let last = parts[parts.len() - 1];
        assert(single(last));
        assert forall|i: int| 0 <= i < s.len() && #[trigger] s[i] == ' ' implies i + 1 < s.len() && s[i + 1]
            != 'O' by {
            if i < t.len() {
                assert(t[i] == s[i]);
                assert(t[i + 1] == s[i + 1]);
            } else if i < t.len() + 5 {
                assert(s[i] == " AND "@[i - t.len()]);
                if i < t.len() + 4 {
                    assert(s[i + 1] == " AND "@[i + 1 - t.len()]);
                } else {
                    assert(s[i + 1] == last[0]);
                }
            } else {
                assert(s[i] == last[i - t.len() - 5]);
                assert(s[i + 1] == last[i + 1 - t.len() - 5]);
            }
        }
    }
}

/// Requirements that are joined by `OR` hold where any of them does.
pub proof fn lemma_or_is_read(parts: Seq<Seq<char>>, truth: spec_fn(Seq<char>) -> bool)
    requires
        parts.len() > 0,
        all_single(parts),
    ensures
        condition_holds(joined(parts, " OR "@), truth) <==> exists|i: int|
            0 <= i < parts.len() && truth(#[trigger] parts[i]),
    decreases parts.len(),
{
    reveal_strlit(" OR ");
    lemma_single_is_read(parts[0], truth);
    if parts.len() > 1 {
        let sep = " OR "@;
        let rest = parts.drop_first();
        let tail = joined(rest, sep);
        lemma_joined_from_the_front(parts, sep);
        let s = joined(parts, sep);
        assert(s =~= parts[0] + (sep + tail));
        assert((sep + tail).take(4) =~= sep);
        lemma_place_behind_single(parts[0], sep, sep + tail);
        assert(s.take(parts[0].len() as int) =~= parts[0]);
        assert(s.skip(parts[0].len() as int + 4) =~= tail);
        assert forall|i: int| 0 <= i < rest.len() implies single(#[trigger] rest[i]) by {
            assert(rest[i] == parts[i + 1]);
        }
        lemma_or_is_read(rest, truth);
        if exists|i: int| 0 <= i < rest.len() && truth(#[trigger] rest[i]) {
            let i = choose|i: int| 0 <= i < rest.len() && truth(#[trigger] rest[i]);
            assert(truth(parts[i + 1]));
        }
        if exists|i: int| 0 <= i < parts.len() && truth(#[trigger] parts[i]) {
            let i = choose|i: int| 0 <= i < parts.len() && truth(#[trigger] parts[i]);
            if i > 0 {
                assert(truth(rest[i - 1]));
            }
        }
    }
}

/// Whether a condition demands each of some requirements, and nothing else.
pub open spec fn demands(condition: Seq<char>, parts: Seq<Seq<char>>) -> bool {
    forall|truth: spec_fn(Seq<char>) -> bool| #[trigger]
        condition_holds(condition, truth) == (forall|i: int| 0 <= i < parts.len() ==> truth(#[trigger] parts[i]))
}

/// Whether a statement is about the rows that meet each of some requirements, and
/// about no others. `head` is what stands before its condition, `tail` what
/// stands behind.
pub open spec fn asks(statement: Seq<char>, head: Seq<char>, parts: Seq<Seq<char>>, tail: Seq<char>) -> bool {
    exists|condition: Seq<char>|
        statement == head + " WHERE "@ + condition + tail && #[trigger] demands(condition, parts)
}

/// A statement whose condition joins requirements by `AND` is about the rows that
/// meet them all.
pub proof fn lemma_asks(statement: Seq<char>, head: Seq<char>, parts: Seq<Seq<char>>, tail: Seq<char>)
    requires
        parts.len() > 0,
        all_single(parts),
        forall|i: int| 0 <= i < parts.len() ==> (#[trigger] parts[i]).len() > 0 && parts[i][0] != 'O',
        statement == head + " WHERE "@ + joined(parts, " AND "@) + tail,
    ensures
        asks(statement, head, parts, tail),
        demands(joined(parts, " AND "@), parts),
{
    let condition = joined(parts, " AND "@);
    assert forall|truth: spec_fn(Seq<char>) -> bool| #[trigger]
        condition_holds(condition, truth) == (forall|i: int| 0 <= i < parts.len() ==> truth(#[trigger] parts[i])) by {
        lemma_and_is_read(parts, truth);
        lemma_and_without_or(parts, truth);
    }
    assert(demands(condition, parts));
}

/// Two, three and four texts, joined.
pub proof fn lemma_joined_few(a: Seq<char>, b: Seq<char>, c: Seq<char>, d: Seq<char>, sep: Seq<char>)
    ensures
        joined(seq![a, b], sep) == a + sep + b,
        joined(seq![a, b, c], sep) == a + sep + b + sep + c,
        joined(seq![a, b, c, d], sep) == a + sep + b + sep + c + sep + d,
{
    assert(seq![a].drop_last() =~= Seq::<Seq<char>>::empty());
    assert(seq![a, b].drop_last() =~= seq![a]);
    assert(seq![a, b, c].drop_last() =~= seq![a, b]);
    assert(seq![a, b, c, d].drop_last() =~= seq![a, b, c]);
    reveal_with_fuel(joined, 2);
    assert(joined(seq![a], sep) == a);
    assert(joined(seq![a, b], sep) == a + sep + b);
    assert(joined(seq![a, b, c], sep) == a + sep + b + sep + c);
}

} // verus!
