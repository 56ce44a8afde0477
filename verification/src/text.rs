use vstd::prelude::*;

verus! {

/// The lower-case form of an ASCII letter; every other character is left as is.
pub open spec fn ascii_lower(c: char) -> char {
    if 'A' <= c && c <= 'Z' {
        ((c as u32) + 32) as char
    } else {
        c
    }
}

/// Two texts that are equal once ASCII letters are lower-cased.
pub open spec fn same_ignoring_ascii_case(a: Seq<char>, b: Seq<char>) -> bool {
    &&& a.len() == b.len()
    &&& forall|i: int| 0 <= i < a.len() ==> #[trigger] ascii_lower(a[i]) == ascii_lower(b[i])
}

/// The characters of `s`, in order.
pub fn chars_of(s: &str) -> (v: Vec<char>)
    ensures
        v@ == s@,
{
    let mut v: Vec<char> = Vec::new();
    for c in it: s.chars()
        invariant
            v@ == it.seq().take(it.index() as int),
            it.seq() == s@,
    {
        v.push(c);
    }
    v
}

fn lower_char(c: char) -> (r: char)
    ensures
        r == ascii_lower(c),
{
    if 'A' <= c && c <= 'Z' {
        let b: u8 = c as u8;
        assert(b == c as u32);
        ((b + 32) as char)
    } else {
        c
    }
}

/// Whether `a` and `b` are equal once ASCII letters are lower-cased.
pub fn eq_ignore_ascii_case(a: &str, b: &str) -> (r: bool)
    ensures
        r == same_ignoring_ascii_case(a@, b@),
{
    let va = chars_of(a);
    let vb = chars_of(b);
    if va.len() != vb.len() {
        return false;
    }
    let mut i: usize = 0;
    while i < va.len()
        invariant
            va@ == a@,
            vb@ == b@,
            va.len() == vb.len(),
            i <= va.len(),
            forall|j: int| 0 <= j < i ==> #[trigger] ascii_lower(va@[j]) == ascii_lower(vb@[j]),
        decreases va.len() - i,
    {
        if lower_char(va[i]) != lower_char(vb[i]) {
            return false;
        }
        i = i + 1;
    }
    true
}


/// The pieces of `s` between occurrences of `sep`, as `str::split` with a one-character
/// pattern gives them: there is always at least one piece, and two separators side by side,
/// or a separator at either end, give an empty piece.
pub open spec fn split_chars(s: Seq<char>, sep: char) -> Seq<Seq<char>>
    decreases s.len(),
{
    if s.len() == 0 {
        seq![Seq::empty()]
    } else {
        let prev = split_chars(s.drop_last(), sep);
        if s.last() == sep {
            prev.push(Seq::empty())
        } else {
            prev.update(prev.len() - 1, prev.last().push(s.last()))
        }
    }
}

/// The pieces put back together, with `sep` between each two of them.
pub open spec fn join_chars(pieces: Seq<Seq<char>>, sep: char) -> Seq<char>
    decreases pieces.len(),
{
    if pieces.len() <= 1 {
        if pieces.len() == 0 {
            Seq::empty()
        } else {
            pieces[0]
        }
    } else {
        join_chars(pieces.drop_last(), sep).push(sep) + pieces.last()
    }
}

/// `split_chars` always gives at least one piece.
pub proof fn lemma_split_nonempty(s: Seq<char>, sep: char)
    ensures
        split_chars(s, sep).len() >= 1,
    decreases s.len(),
{
    if s.len() > 0 {
        lemma_split_nonempty(s.drop_last(), sep);
    }
}

/// No piece of a split holds the separator.
pub proof fn lemma_split_pieces_lack_sep(s: Seq<char>, sep: char)
    ensures
        forall|i: int| 0 <= i < split_chars(s, sep).len() ==> !(#[trigger] split_chars(s, sep)[i]).contains(sep),
    decreases s.len(),
{
    lemma_split_nonempty(s, sep);
    if s.len() > 0 {
        lemma_split_pieces_lack_sep(s.drop_last(), sep);
        lemma_split_nonempty(s.drop_last(), sep);
        let prev = split_chars(s.drop_last(), sep);
        if s.last() != sep {
            assert forall|i: int| 0 <= i < split_chars(s, sep).len() implies !(#[trigger] split_chars(s, sep)[i]).contains(sep) by {
                if i == prev.len() - 1 {
                    let piece = prev.last().push(s.last());
                    assert(!prev[i].contains(sep));
                    if piece.contains(sep) {
                        let k = choose|k: int| 0 <= k < piece.len() && piece[k] == sep;
                        if k < prev.last().len() {
                            assert(prev.last()[k] == sep);
                        }
                    }
                }
            }
        }
    }
}

/// Splitting on a character and joining the pieces again with it gives back the text.
pub proof fn lemma_join_split(s: Seq<char>, sep: char)
    ensures
        join_chars(split_chars(s, sep), sep) == s,
    decreases s.len(),
{
    lemma_split_nonempty(s, sep);
    if s.len() > 0 {
        let prev = split_chars(s.drop_last(), sep);
        lemma_join_split(s.drop_last(), sep);
        lemma_split_nonempty(s.drop_last(), sep);
        if s.last() == sep {
            let cur = prev.push(Seq::<char>::empty());
            assert(cur.drop_last() =~= prev);
            assert(join_chars(cur, sep) =~= s);
        } else {
            let cur = prev.update(prev.len() - 1, prev.last().push(s.last()));
            if prev.len() == 1 {
                assert(join_chars(cur, sep) =~= s);
            } else {
                assert(cur.drop_last() =~= prev.drop_last());
                let a = join_chars(prev.drop_last(), sep).push(sep);
                assert(join_chars(prev, sep) == a + prev.last());
                assert(cur.last() == prev.last().push(s.last()));
                assert(join_chars(cur, sep) == a + cur.last());
                assert(a + prev.last().push(s.last()) =~= (a + prev.last()).push(s.last()));
                assert(s =~= s.drop_last().push(s.last()));
                assert(join_chars(cur, sep) =~= s);
            }
        }
    }
}

/// The pieces of `s` between occurrences of `sep` (see [`split_chars`]).
pub fn split_on(s: &Vec<char>, sep: char) -> (pieces: Vec<Vec<char>>)
    ensures
        pieces@.len() == split_chars(s@, sep).len(),
        forall|i: int| 0 <= i < pieces@.len() ==> (#[trigger] pieces@[i])@ == split_chars(s@, sep)[i],
{
    let mut done: Vec<Vec<char>> = Vec::new();
    let mut cur: Vec<char> = Vec::new();
    let mut i: usize = 0;
    while i < s.len()
        invariant
            i <= s.len(),
            done@.len() + 1 == split_chars(s@.take(i as int), sep).len(),
            forall|j: int| 0 <= j < done@.len() ==> (#[trigger] done@[j])@ == split_chars(s@.take(i as int), sep)[j],
            cur@ == split_chars(s@.take(i as int), sep).last(),
        decreases s.len() - i,
    {
        assert(s@.take(i + 1).drop_last() =~= s@.take(i as int));
        proof {
            lemma_split_nonempty(s@.take(i as int), sep);
        }
        let c = s[i];
        if c == sep {
            done.push(cur);
            cur = Vec::new();
        } else {
            cur.push(c);
        }
        i = i + 1;
    }
    assert(s@.take(s.len() as int) =~= s@);
    done.push(cur);
    done
}


/// A text that holds `sep` splits into at least two pieces.
pub proof fn lemma_split_at_least_two(s: Seq<char>, sep: char, k: int)
    requires
        0 <= k < s.len(),
        s[k] == sep,
    ensures
        split_chars(s, sep).len() >= 2,
    decreases s.len(),
{
    lemma_split_nonempty(s.drop_last(), sep);
    if s.last() != sep {
        lemma_split_at_least_two(s.drop_last(), sep, k);
    }
}

/// A text without the separator is one piece.
pub proof fn lemma_split_without_sep(s: Seq<char>, sep: char)
    requires
        !s.contains(sep),
    ensures
        split_chars(s, sep) == seq![s],
    decreases s.len(),
{
    if s.len() > 0 {
        assert(!s.drop_last().contains(sep)) by {
            if s.drop_last().contains(sep) {
                let k = choose|k: int| 0 <= k < s.drop_last().len() && s.drop_last()[k] == sep;
                assert(s[k] == sep);
            }
        }
        lemma_split_without_sep(s.drop_last(), sep);
        assert(s.last() != sep) by {
            assert(s[s.len() - 1] == s.last());
        }
        assert(s.drop_last().push(s.last()) =~= s);
        assert(seq![s.drop_last()].update(0, s.drop_last().push(s.last())) =~= seq![s]);
    } else {
        assert(s =~= Seq::<char>::empty());
    }
}

/// Splitting `s`, a separator, then `r` gives the pieces of `s` followed by those of `r`.
pub proof fn lemma_split_concat(s: Seq<char>, r: Seq<char>, sep: char)
    ensures
        split_chars(s.push(sep) + r, sep) == split_chars(s, sep) + split_chars(r, sep),
    decreases r.len(),
{
    let t = s.push(sep) + r;
    lemma_split_nonempty(s, sep);
    if r.len() == 0 {
        assert(t =~= s.push(sep));
        assert(t.drop_last() =~= s);
        assert(split_chars(s, sep).push(Seq::empty()) =~= split_chars(s, sep) + split_chars(r, sep));
    } else {
        lemma_split_concat(s, r.drop_last(), sep);
        lemma_split_nonempty(r.drop_last(), sep);
        assert(t.drop_last() =~= s.push(sep) + r.drop_last());
        assert(t.last() == r.last());
        let a = split_chars(s, sep);
        let b = split_chars(r.drop_last(), sep);
        if r.last() == sep {
            assert((a + b).push(Seq::empty()) =~= a + b.push(Seq::empty()));
        } else {
            assert((a + b).update((a + b).len() - 1, (a + b).last().push(r.last()))
                =~= a + b.update(b.len() - 1, b.last().push(r.last())));
        }
    }
}

/// The parameter `key=` followed by `v`.
pub open spec fn key_param(v: Seq<char>) -> Seq<char> {
    seq!['k', 'e', 'y', '='] + v
}

/// Parameters that do not start with `key=` are passed over when looking for the key.
pub proof fn lemma_player_key_skips(a: Seq<Seq<char>>, b: Seq<Seq<char>>)
    requires
        forall|j: int| 0 <= j < a.len() ==> !has_key_prefix(#[trigger] a[j]),
    ensures
        player_key_in(a + b) == player_key_in(b),
    decreases a.len(),
{
    if a.len() > 0 {
        assert((a + b).drop_first() =~= a.drop_first() + b);
        assert((a + b)[0] == a[0]);
        lemma_player_key_skips(a.drop_first(), b);
    }
}

/// A query whose parameters before `key=v` do not start with `key=`, where `v` holds
/// neither `=` nor `&`, carries the key `v` whole, whatever follows it.
pub proof fn lemma_player_key_read(before: Seq<char>, v: Seq<char>, after: Seq<char>)
    requires
        !v.contains('='),
        !v.contains('&'),
        forall|j: int| 0 <= j < split_chars(before, '&').len() ==> !has_key_prefix(#[trigger] split_chars(before, '&')[j]),
    ensures
        player_key_in(split_chars(key_param(v), '&')) == Some(v),
        player_key_in(split_chars(key_param(v).push('&') + after, '&')) == Some(v),
        player_key_in(split_chars(before.push('&') + key_param(v), '&')) == Some(v),
        player_key_in(split_chars(before.push('&') + key_param(v).push('&') + after, '&')) == Some(v),
{
    let kp = key_param(v);
    assert(!kp.contains('&')) by {
        if kp.contains('&') {
            let k = choose|k: int| 0 <= k < kp.len() && kp[k] == '&';
            assert(kp[k] == v[k - 4]);
        }
    }
    assert(seq!['k', 'e', 'y'].push('=') + v =~= kp);
    lemma_split_concat(seq!['k', 'e', 'y'], v, '=');
    lemma_split_without_sep(seq!['k', 'e', 'y'], '=');
    lemma_split_without_sep(v, '=');
    assert(split_chars(kp, '=')[1] == v);
    assert(has_key_prefix(kp));
    lemma_split_without_sep(kp, '&');
    let first = split_chars(kp, '&');
    assert(player_key_in(first) == Some(v)) by {
        assert(first[0] == kp);
    }
    lemma_split_concat(kp, after, '&');
    let second = split_chars(kp.push('&') + after, '&');
    assert(second[0] == kp);
    assert(player_key_in(second) == Some(v));
    let bp = split_chars(before, '&');
    lemma_split_concat(before, kp, '&');
    lemma_player_key_skips(bp, first);
    assert(before.push('&') + kp.push('&') + after =~= before.push('&') + (kp.push('&') + after));
    lemma_split_concat(before, kp.push('&') + after, '&');
    lemma_player_key_skips(bp, second);
}

/// `String::push`: appends one character.
#[verifier::external_body]
fn push_char(s: &mut String, c: char)
    ensures
        final(s)@ == old(s)@.push(c),
{
    s.push(c);
}

/// The characters of `v` as a `String`.
pub fn string_from_chars(v: &Vec<char>) -> (s: String)
    ensures
        s@ == v@,
{
    let mut s = String::new();
    let mut i: usize = 0;
    while i < v.len()
        invariant
            i <= v.len(),
            s@ == v@.take(i as int),
        decreases v.len() - i,
    {
        push_char(&mut s, v[i]);
        assert(v@.take(i + 1) =~= v@.take(i as int).push(v@[i as int]));
        i = i + 1;
    }
    assert(v@.take(v.len() as int) =~= v@);
    s
}

/// A query-string parameter that starts with `key=`.
pub open spec fn has_key_prefix(q: Seq<char>) -> bool {
    &&& q.len() >= 4
    &&& q[0] == 'k'
    &&& q[1] == 'e'
    &&& q[2] == 'y'
    &&& q[3] == '='
}

/// The player key carried by the first parameter that starts with `key=`: what follows that
/// `=`, up to the next `=` if there is one.
pub open spec fn player_key_in(params: Seq<Seq<char>>) -> Option<Seq<char>>
    decreases params.len(),
{
    if params.len() == 0 {
        None
    } else if has_key_prefix(params[0]) {
        Some(split_chars(params[0], '=')[1])
    } else {
        player_key_in(params.drop_first())
    }
}

/// The player key given in a request's query string (`a=1&key=XYZ&b=2` gives `XYZ`), or
/// `None` when no parameter starts with `key=`.
pub fn get_player_key(query: &str) -> (key: Option<String>)
    ensures
        match key {
            Some(k) => player_key_in(split_chars(query@, '&')) == Some(k@),
            None => player_key_in(split_chars(query@, '&')) is None,
        },
{
    let chars = chars_of(query);
    let params = split_on(&chars, '&');
    let ghost all = split_chars(query@, '&');
    let mut i: usize = 0;
    assert(all.skip(0) =~= all);
    while i < params.len()
        invariant
            i <= params.len(),
            all == split_chars(query@, '&'),
            params@.len() == all.len(),
            forall|j: int| 0 <= j < params@.len() ==> (#[trigger] params@[j])@ == all[j],
            player_key_in(all) == player_key_in(all.skip(i as int)),
        decreases params.len() - i,
    {
        let q = &params[i];
        assert(all.skip(i as int)[0] == all[i as int]);
        assert(all.skip(i as int).drop_first() =~= all.skip(i + 1));
        if q.len() >= 4 && q[0] == 'k' && q[1] == 'e' && q[2] == 'y' && q[3] == '=' {
            proof {
                lemma_split_at_least_two(q@, '=', 3);
            }
            let parts = split_on(q, '=');
            assert(has_key_prefix(all.skip(i as int)[0]));
            let k = string_from_chars(&parts[1]);
            assert(k@ == split_chars(all[i as int], '=')[1]);
            assert(all.skip(i as int).len() > 0);
            assert(player_key_in(all.skip(i as int)) == Some(split_chars(all[i as int], '=')[1]));
            return Some(k);
        }
        i = i + 1;
    }
    None
}

} // verus!
