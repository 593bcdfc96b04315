//! Text handling: trimming, searching, joining and unquoting, over sequences of characters.

use vstd::prelude::*;

verus! {

/// The characters with the Unicode property `White_Space`.
pub open spec fn white_space(c: char) -> bool {
    ||| '\u{9}' <= c <= '\u{d}'
    ||| c == '\u{20}'
    ||| c == '\u{85}'
    ||| c == '\u{a0}'
    ||| c == '\u{1680}'
    ||| '\u{2000}' <= c <= '\u{200a}'
    ||| c == '\u{2028}'
    ||| c == '\u{2029}'
    ||| c == '\u{202f}'
    ||| c == '\u{205f}'
    ||| c == '\u{3000}'
}

/// `s` without its leading white space.
pub open spec fn trimmed_start(s: Seq<char>) -> Seq<char>
    decreases s.len(),
{
    if s.len() > 0 && white_space(s.first()) {
        trimmed_start(s.drop_first())
    } else {
        s
    }
}

/// `s` without its trailing white space.
pub open spec fn trimmed_end(s: Seq<char>) -> Seq<char>
    decreases s.len(),
{
    if s.len() > 0 && white_space(s.last()) {
        trimmed_end(s.drop_last())
    } else {
        s
    }
}

/// `s` without white space at either end.
pub open spec fn trimmed(s: Seq<char>) -> Seq<char> {
    trimmed_end(trimmed_start(s))
}

/// Nothing but white space, or nothing at all.
pub open spec fn blank(s: Seq<char>) -> bool {
    trimmed(s).len() == 0
}

/// Whether `c` has the Unicode property `White_Space`.
pub fn is_white_space(c: char) -> (r: bool)
    ensures
        r == white_space(c),
{
    ('\u{9}' <= c && c <= '\u{d}') || c == '\u{20}' || c == '\u{85}' || c == '\u{a0}' || c
        == '\u{1680}' || ('\u{2000}' <= c && c <= '\u{200a}') || c == '\u{2028}' || c == '\u{2029}'
        || c == '\u{202f}' || c == '\u{205f}' || c == '\u{3000}'
}

/// The characters of `s`, one by one.
fn chars_of(s: &str) -> (v: Vec<char>)
    ensures
        v@ == s@,
{
    let mut v: Vec<char> = Vec::new();
    for c in it: s.chars()
        invariant
            it.seq() == s@,
            v@ == s@.take(it.index()),
    {
        v.push(c);
    }
    v
}

/// `s` without white space at either end.
pub fn trim(s: &str) -> (r: &str)
    ensures
        r@ == trimmed(s@),
{
    let v = chars_of(s);
    let mut from: usize = 0;
    assert(s@.skip(0) =~= s@);
    while from < v.len() && is_white_space(v[from])
        invariant
            from <= v.len(),
            v@ == s@,
            trimmed_start(s@) == trimmed_start(s@.skip(from as int)),
        decreases v.len() - from,
    {
        assert(s@.skip(from as int).drop_first() =~= s@.skip(from + 1));
        from = from + 1;
    }
    let mut to: usize = v.len();
    assert(s@.subrange(from as int, to as int) =~= s@.skip(from as int));
    while from < to && is_white_space(v[to - 1])
        invariant
            from <= to <= v.len(),
            v@ == s@,
            trimmed_end(s@.skip(from as int)) == trimmed_end(s@.subrange(from as int, to as int)),
        decreases to,
    {
        assert(s@.subrange(from as int, to as int).drop_last() =~= s@.subrange(
            from as int,
            to - 1,
        ));
        to = to - 1;
    }
    s.substring_char(from, to)
}

/// `part` stands somewhere in `s`, uninterrupted.
pub open spec fn occurs(part: Seq<char>, s: Seq<char>) -> bool {
    exists|at: int| #[trigger] occurs_at(part, s, at)
}

/// `part` stands in `s` from position `at` on.
pub open spec fn occurs_at(part: Seq<char>, s: Seq<char>, at: int) -> bool {
    0 <= at <= s.len() - part.len() && s.subrange(at, at + part.len()) == part
}

/// Whether `part` stands in `s` from position `at` on.
fn matches_at(part: &Vec<char>, s: &Vec<char>, at: usize) -> (r: bool)
    requires
        at + part.len() <= s.len(),
    ensures
        r == occurs_at(part@, s@, at as int),
{
    let mut i: usize = 0;
    while i < part.len()
        invariant
            i <= part.len(),
            at + part.len() <= s.len(),
            forall|j: int| 0 <= j < i ==> s@[at + j] == part@[j],
        decreases part.len() - i,
    {
        if s[at + i] != part[i] {
            assert(s@.subrange(at as int, at + part@.len())[i as int] != part@[i as int]);
            return false;
        }
        i = i + 1;
    }
    assert(s@.subrange(at as int, at + part@.len()) =~= part@);
    true
}

/// Whether `part` stands somewhere in `s`.
pub fn contains(s: &str, part: &str) -> (r: bool)
    ensures
        r == occurs(part@, s@),
{
    let whole = chars_of(s);
    let wanted = chars_of(part);
    if wanted.len() > whole.len() {
        return false;
    }
    let last: usize = whole.len() - wanted.len();
    let mut at: usize = 0;
    while at <= last
        invariant
            whole@ == s@,
            wanted@ == part@,
            wanted.len() <= whole.len(),
            last == whole.len() - wanted.len(),
            at <= last + 1,
            forall|k: int| 0 <= k < at ==> !#[trigger] occurs_at(part@, s@, k),
        decreases last + 1 - at,
    {
        if matches_at(&wanted, &whole, at) {
            return true;
        }
        if at == last {
            return false;
        }
        at = at + 1;
    }
    false
}

/// Whether two texts are the same.
pub fn same(a: &str, b: &str) -> (r: bool)
    ensures
        r == (a@ == b@),
{
    a.to_string() == b.to_string()
}

/// What follows `prefix` in `s`, where `s` begins with it.
pub open spec fn without_prefix(s: Seq<char>, prefix: Seq<char>) -> Option<Seq<char>> {
    if occurs_at(prefix, s, 0) {
        Some(s.skip(prefix.len() as int))
    } else {
        None
    }
}

/// What follows `prefix` in `s`, where `s` begins with it.
pub fn strip_prefix<'a>(s: &'a str, prefix: &str) -> (r: Option<&'a str>)
    ensures
        (match r {
            Some(rest) => without_prefix(s@, prefix@) == Some(rest@),
            None => without_prefix(s@, prefix@) is None,
        }),
{
    let whole = chars_of(s);
    let wanted = chars_of(prefix);
    if wanted.len() <= whole.len() && matches_at(&wanted, &whole, 0) {
        let rest = s.substring_char(wanted.len(), whole.len());
        assert(rest@ =~= s@.skip(prefix@.len() as int));
        Some(rest)
    } else {
        None
    }
}

/// The texts that a sequence of strings holds.
pub open spec fn texts(v: Seq<String>) -> Seq<Seq<char>> {
    Seq::new(v.len(), |i: int| v[i]@)
}

/// The parts in order, with one space between neighbours.
pub open spec fn joined(parts: Seq<Seq<char>>) -> Seq<char>
    decreases parts.len(),
{
    if parts.len() == 0 {
        Seq::empty()
    } else if parts.len() == 1 {
        parts[0]
    } else {
        joined(parts.drop_last()).push(' ') + parts.last()
    }
}

/// Appends `part` to a text built so far out of `count` parts.
pub(crate) fn append_part(so_far: &mut String, part: &str, count: usize)
    ensures
        final(so_far)@ == if count == 0 { old(so_far)@ + part@ } else { old(so_far)@.push(' ') + part@ },
{
    if count > 0 {
        proof {
            reveal_strlit(" ");
        }
        so_far.append(" ");
        assert(so_far@ =~= old(so_far)@.push(' '));
    }
    so_far.append(part);
}

/// The parts in order, with one space between neighbours.
pub fn join(parts: &[String]) -> (r: String)
    ensures
        r@ == joined(texts(parts@)),
{
    let mut r = String::new();
    let mut i: usize = 0;
    while i < parts.len()
        invariant
            i <= parts.len(),
            r@ == joined(texts(parts@).take(i as int)),
        decreases parts.len() - i,
    {
        append_part(&mut r, parts[i].as_str(), i);
        assert(texts(parts@).take(i + 1).drop_last() =~= texts(parts@).take(i as int));
        assert(r@ =~= joined(texts(parts@).take(i + 1)));
        i = i + 1;
    }
    assert(texts(parts@).take(parts@.len() as int) =~= texts(parts@));
    r
}

/// Trimming the start leaves a tail of the text that is empty or begins with no white space.
proof fn lemma_trimmed_start(s: Seq<char>)
    ensures
        trimmed_start(s).len() <= s.len(),
        trimmed_start(s) == s.skip(s.len() - trimmed_start(s).len()),
        trimmed_start(s).len() > 0 ==> !white_space(trimmed_start(s).first()),
        forall|i: int| 0 <= i < s.len() - trimmed_start(s).len() ==> white_space(#[trigger] s[i]),
    decreases s.len(),
{
    if s.len() > 0 && white_space(s.first()) {
        let rest = s.drop_first();
        lemma_trimmed_start(rest);
        assert(trimmed_start(s) =~= s.skip(s.len() - trimmed_start(s).len()));
        assert forall|i: int| 0 <= i < s.len() - trimmed_start(s).len() implies white_space(
            #[trigger] s[i],
        ) by {
            if i > 0 {
                assert(rest[i - 1] == s[i]);
            }
        }
    } else {
        assert(s =~= s.skip(0));
    }
}

/// Trimming the end leaves a head of the text that is empty or ends in no white space.
proof fn lemma_trimmed_end(s: Seq<char>)
    ensures
        trimmed_end(s).len() <= s.len(),
        trimmed_end(s) == s.take(trimmed_end(s).len() as int),
        trimmed_end(s).len() > 0 ==> !white_space(trimmed_end(s).last()),
        forall|i: int| trimmed_end(s).len() <= i < s.len() ==> white_space(#[trigger] s[i]),
    decreases s.len(),
{
    if s.len() > 0 && white_space(s.last()) {
        let rest = s.drop_last();
        lemma_trimmed_end(rest);
        assert(trimmed_end(s) =~= s.take(trimmed_end(s).len() as int));
        assert forall|i: int| trimmed_end(s).len() <= i < s.len() implies white_space(
            #[trigger] s[i],
        ) by {
            if i < s.len() - 1 {
                assert(rest[i] == s[i]);
            }
        }
    } else {
        assert(s =~= s.take(s.len() as int));
    }
}

/// A text is clean when it is not empty and neither begins nor ends with white space.
pub open spec fn clean(s: Seq<char>) -> bool {
    s.len() > 0 && !white_space(s.first()) && !white_space(s.last())
}

/// A trimmed text is empty or clean.
pub proof fn law_trimmed_is_clean(s: Seq<char>)
    ensures
        trimmed(s).len() == 0 || clean(trimmed(s)),
{
    let t = trimmed_start(s);
    lemma_trimmed_start(s);
    lemma_trimmed_end(t);
    if trimmed(s).len() > 0 {
        assert(trimmed(s).first() == t.first());
    }
}

/// Trimming leaves a clean text as it is.
pub proof fn law_clean_stays(s: Seq<char>)
    requires
        clean(s),
    ensures
        trimmed(s) == s,
{
}

/// Trimming twice is trimming once.
pub proof fn law_trim_is_idempotent(s: Seq<char>)
    ensures
        trimmed(trimmed(s)) == trimmed(s),
{
    law_trimmed_is_clean(s);
}

/// A text is blank exactly when all its characters are white space.
pub proof fn law_blank_means_white_space(s: Seq<char>)
    ensures
        blank(s) <==> (forall|i: int| 0 <= i < s.len() ==> white_space(#[trigger] s[i])),
{
    let t = trimmed_start(s);
    lemma_trimmed_start(s);
    lemma_trimmed_end(t);
    if blank(s) {
        assert forall|i: int| 0 <= i < s.len() implies white_space(#[trigger] s[i]) by {
            let cut = s.len() - t.len();
            if i >= cut {
                assert(t[i - cut] == s[i]);
            }
        }
    } else {
        assert(t.len() > 0);
        assert(t.first() == s[s.len() - t.len()]);
    }
}

/// Clean parts joined with spaces make a clean text.
pub proof fn law_joined_is_clean(parts: Seq<Seq<char>>)
    requires
        parts.len() > 0,
        forall|i: int| 0 <= i < parts.len() ==> clean(#[trigger] parts[i]),
    ensures
        clean(joined(parts)),
    decreases parts.len(),
{
    if parts.len() > 1 {
        let front = parts.drop_last();
        assert forall|i: int| 0 <= i < front.len() implies clean(#[trigger] front[i]) by {
            assert(front[i] == parts[i]);
        }
        law_joined_is_clean(front);
        assert(clean(parts[parts.len() - 1]));
        assert(joined(parts).first() == joined(front).first());
        assert(joined(parts).last() == parts.last().last());
    }
}

/// What stands in a text stands in every text that holds that text.
pub proof fn law_occurs_in_more(
    part: Seq<char>,
    s: Seq<char>,
    before: Seq<char>,
    behind: Seq<char>,
)
    requires
        occurs(part, s),
    ensures
        occurs(part, before + s + behind),
{
    let at = choose|at: int| #[trigger] occurs_at(part, s, at);
    let whole = before + s + behind;
    let moved = before.len() + at;
    assert(whole.subrange(moved, moved + part.len()) =~= s.subrange(at, at + part.len()));
    assert(occurs_at(part, whole, moved));
}

/// Trimming takes away white space at the two ends, all of it, and nothing else.
pub proof fn law_trimming_takes_only_the_ends(s: Seq<char>)
    ensures
        exists|from: int, to: int|
            {
                &&& 0 <= from <= to <= s.len()
                &&& trimmed(s) == #[trigger] s.subrange(from, to)
                &&& forall|i: int|
                    0 <= i < s.len() && (i < from || to <= i) ==> white_space(#[trigger] s[i])
                &&& from < to ==> !white_space(s[from]) && !white_space(s[to - 1])
            },
{
    let t = trimmed_start(s);
    lemma_trimmed_start(s);
    lemma_trimmed_end(t);
    let from = s.len() - t.len();
    let to = from + trimmed(s).len();
    assert(trimmed(s) =~= s.subrange(from, to));
    assert forall|i: int| 0 <= i < s.len() && (i < from || to <= i) implies white_space(
        #[trigger] s[i],
    ) by {
        if i >= to {
            assert(t[i - from] == s[i]);
        }
    }
    if from < to {
        assert(s[from] == t.first());
        assert(s[to - 1] == trimmed(s).last());
    }
}

/// White space around a text makes no difference to what trimming leaves of it.
pub proof fn law_white_space_around_is_trimmed(before: Seq<char>, s: Seq<char>, behind: Seq<char>)
    requires
        forall|i: int| 0 <= i < before.len() ==> white_space(#[trigger] before[i]),
        forall|i: int| 0 <= i < behind.len() ==> white_space(#[trigger] behind[i]),
        clean(s),
    ensures
        trimmed(before + s + behind) == s,
    decreases before.len() + behind.len(),
{
    let whole = before + s + behind;
    if before.len() > 0 {
        assert(whole.first() == before[0]);
        assert(whole.drop_first() =~= before.drop_first() + s + behind);
        assert forall|i: int| 0 <= i < before.drop_first().len() implies white_space(
            #[trigger] before.drop_first()[i],
        ) by {
            assert(before.drop_first()[i] == before[i + 1]);
        }
        law_white_space_around_is_trimmed(before.drop_first(), s, behind);
    } else {
        assert(whole =~= s + behind);
        assert(whole.first() == s.first());
        lemma_end_is_trimmed(s, behind);
    }
}

proof fn lemma_end_is_trimmed(s: Seq<char>, behind: Seq<char>)
    requires
        clean(s),
        forall|i: int| 0 <= i < behind.len() ==> white_space(#[trigger] behind[i]),
    ensures
        trimmed_end(s + behind) == s,
    decreases behind.len(),
{
    let whole = s + behind;
    if behind.len() > 0 {
        assert(whole.last() == behind[behind.len() - 1]);
        assert(whole.drop_last() =~= s + behind.drop_last());
        assert forall|i: int| 0 <= i < behind.drop_last().len() implies white_space(
            #[trigger] behind.drop_last()[i],
        ) by {
            assert(behind.drop_last()[i] == behind[i]);
        }
        lemma_end_is_trimmed(s, behind.drop_last());
    } else {
        assert(whole =~= s);
    }
}

/// A part stands in a text exactly when the text is something, the part, and something.
pub proof fn law_occurring_means_in_between(part: Seq<char>, s: Seq<char>)
    ensures
        occurs(part, s) <==> exists|before: Seq<char>, behind: Seq<char>|
            s == #[trigger] (before + part + behind),
{
    if occurs(part, s) {
        let at = choose|at: int| #[trigger] occurs_at(part, s, at);
        let before = s.take(at);
        let behind = s.skip(at + part.len());
        assert(s.subrange(at, at + part.len()) == part);
        assert(s =~= before + s.subrange(at, at + part.len()) + behind);
        assert(s == before + part + behind);
    }
    if exists|before: Seq<char>, behind: Seq<char>| s == #[trigger] (before + part + behind) {
        let (before, behind) = choose|before: Seq<char>, behind: Seq<char>|
            s == #[trigger] (before + part + behind);
        let at = before.len() as int;
        assert(s.subrange(at, at + part.len()) =~= part);
        assert(occurs_at(part, s, at));
    }
}

/// Taking a prefix off undoes putting it on, and what has none to take off does not begin with it.
pub proof fn law_prefixes_come_off(s: Seq<char>, prefix: Seq<char>, rest: Seq<char>)
    ensures
        without_prefix(prefix + rest, prefix) == Some(rest),
        without_prefix(s, prefix) is Some ==> s == prefix + without_prefix(s, prefix)->0,
        without_prefix(s, prefix) is None ==> s != prefix + rest,
{
    let whole = prefix + rest;
    assert(whole.subrange(0, prefix.len() as int) =~= prefix);
    assert(whole.skip(prefix.len() as int) =~= rest);
    if without_prefix(s, prefix) is Some {
        assert(s =~= s.subrange(0, prefix.len() as int) + s.skip(prefix.len() as int));
    }
}

/// Joining nothing gives nothing, joining one part gives that part, and each further part comes last,
/// after one space.
pub proof fn law_parts_are_joined_in_order(parts: Seq<Seq<char>>, part: Seq<char>)
    ensures
        joined(Seq::<Seq<char>>::empty()).len() == 0,
        joined(seq![part]) == part,
        parts.len() > 0 ==> joined(parts.push(part)) == joined(parts) + seq![' '] + part,
{
    assert(parts.push(part).drop_last() =~= parts);
    assert(joined(parts.push(part)) =~= if parts.len() > 0 {
        joined(parts) + seq![' '] + part
    } else {
        part
    });
    assert(seq![part][0] == part);
}

/// Strings are seen with all their characters, in order.
pub proof fn law_strings_are_seen_whole(v: Seq<String>, i: int)
    ensures
        texts(v).len() == v.len(),
        0 <= i < v.len() ==> texts(v)[i] == v[i]@,
{
}

} // verus!
