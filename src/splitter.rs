use vstd::prelude::*;

verus! {

/// A token is a variable assignment when it holds an `'='`.
pub open spec fn is_assignment(t: Seq<char>) -> bool {
    t.contains('=')
}

/// `k` and `v` are what lies before and after the first `'='` of `t`.
pub open spec fn splits_at_first_eq(t: Seq<char>, k: Seq<char>, v: Seq<char>) -> bool {
    t == k + seq!['='] + v && !k.contains('=')
}

/// Position of the first `'='` in `t` (or `t.len()` when there is none).
pub open spec fn first_eq_index(t: Seq<char>) -> nat
    decreases t.len(),
{
    if t.len() == 0 || t[0] == '=' {
        0
    } else {
        1 + first_eq_index(t.drop_first())
    }
}

/// The key/value pair of an assignment token: split at its first `'='`.
pub open spec fn pair_of(t: Seq<char>) -> (Seq<char>, Seq<char>) {
    let i = first_eq_index(t) as int;
    (t.take(i), t.skip(i + 1))
}

/// Number of leading tokens of `ts` that are assignments.
pub open spec fn split_index(ts: Seq<Seq<char>>) -> nat
    decreases ts.len(),
{
    if ts.len() > 0 && is_assignment(ts[0]) {
        1 + split_index(ts.drop_first())
    } else {
        0
    }
}

/// What splitting a token sequence yields: the pairs of its leading
/// assignments, and the position of the first token that is not one.
pub open spec fn split_model(ts: Seq<Seq<char>>) -> (Seq<(Seq<char>, Seq<char>)>, nat) {
    let n = split_index(ts);
    (Seq::new(n, |j: int| pair_of(ts[j])), n)
}

/// The characters of each token.
pub open spec fn tokens_view(args: Seq<&str>) -> Seq<Seq<char>> {
    args.map_values(|s: &str| s@)
}

/// The characters of each key and value.
pub open spec fn pairs_view(ps: Seq<(&str, &str)>) -> Seq<(Seq<char>, Seq<char>)> {
    ps.map_values(|p: (&str, &str)| (p.0@, p.1@))
}

/// Only the first `'='` of a token splits it: when the key holds no `'='`,
/// the token `key=value` gives back exactly `key` and `value`, whether or not
/// `value` holds more `'='`.
pub proof fn lemma_first_eq_only(k: Seq<char>, v: Seq<char>)
    requires
        !k.contains('='),
    ensures
        first_eq_index(k + seq!['='] + v) == k.len(),
        pair_of(k + seq!['='] + v) == (k, v),
    decreases k.len(),
{
    let t = k + seq!['='] + v;
    if k.len() == 0 {
        assert(t[0] == '=');
    } else {
        assert(t[0] == k[0]);
        assert(k[0] != '=') by {
            assert(k.contains(k[0]));
        }
        let k1 = k.drop_first();
        assert(t.drop_first() =~= k1 + seq!['='] + v);
        assert(!k1.contains('=')) by {
            if k1.contains('=') {
                let j = choose|j: int| 0 <= j < k1.len() && k1[j] == '=';
                assert(k[j + 1] == '=');
            }
        }
        lemma_first_eq_only(k1, v);
    }
    assert(t.take(k.len() as int) =~= k);
    assert(t.skip(k.len() as int + 1) =~= v);
}

/// If every token before `i` is an assignment and the one at `i` is not (or
/// `i` is the end), the split index is `i`.
proof fn lemma_split_index_at(ts: Seq<Seq<char>>, i: int)
    requires
        0 <= i <= ts.len(),
        forall|j: int| 0 <= j < i ==> is_assignment(#[trigger] ts[j]),
        i < ts.len() ==> !is_assignment(ts[i]),
    ensures
        split_index(ts) == i,
    decreases i,
{
    if i > 0 {
        let ts1 = ts.drop_first();
        assert forall|j: int| 0 <= j < i - 1 implies is_assignment(#[trigger] ts1[j]) by {
            assert(ts1[j] == ts[j + 1]);
        }
        lemma_split_index_at(ts1, i - 1);
    }
}

/// The split index counts leading assignments: all tokens before it are
/// assignments, and the token at it, if any, is not.
proof fn lemma_split_index_bounds(ts: Seq<Seq<char>>)
    ensures
        split_index(ts) <= ts.len(),
        forall|j: int| 0 <= j < split_index(ts) ==> is_assignment(#[trigger] ts[j]),
        split_index(ts) < ts.len() ==> !is_assignment(ts[split_index(ts) as int]),
    decreases ts.len(),
{
    if ts.len() > 0 && is_assignment(ts[0]) {
        let ts1 = ts.drop_first();
        lemma_split_index_bounds(ts1);
        assert forall|j: int| 0 <= j < split_index(ts) implies is_assignment(#[trigger] ts[j]) by {
            if j > 0 {
                assert(ts[j] == ts1[j - 1]);
            }
        }
        if split_index(ts) < ts.len() {
            assert(ts[split_index(ts) as int] == ts1[split_index(ts1) as int]);
        }
    }
}

/// When every token is an assignment, all of them become pairs and the
/// split index is the number of tokens.
pub proof fn lemma_all_assignments(ts: Seq<Seq<char>>)
    requires
        forall|j: int| 0 <= j < ts.len() ==> is_assignment(#[trigger] ts[j]),
    ensures
        split_model(ts).0.len() == ts.len(),
        split_model(ts).1 == ts.len(),
{
    lemma_split_index_at(ts, ts.len() as int);
}

/// When the first token without an `'='` stands at `i`, exactly `i` pairs
/// come out and the split index is `i`.
pub proof fn lemma_stops_at_first_command(ts: Seq<Seq<char>>, i: int)
    requires
        0 <= i < ts.len(),
        forall|j: int| 0 <= j < i ==> is_assignment(#[trigger] ts[j]),
        !is_assignment(ts[i]),
    ensures
        split_model(ts).0.len() == i,
        split_model(ts).1 == i,
{
    lemma_split_index_at(ts, i);
}

/// Tokens after one without an `'='` are never looked at: two sequences that
/// agree up to and including such a token split alike.
pub proof fn lemma_later_tokens_ignored(ts: Seq<Seq<char>>, us: Seq<Seq<char>>, i: int)
    requires
        0 <= i < ts.len(),
        i < us.len(),
        ts.take(i + 1) == us.take(i + 1),
        !is_assignment(ts[i]),
    ensures
        split_model(ts) == split_model(us),
{
    lemma_split_index_bounds(ts);
    let n = split_index(ts) as int;
    assert forall|j: int| 0 <= j <= i implies ts[j] == us[j] by {
        assert(ts[j] == ts.take(i + 1)[j]);
        assert(us[j] == us.take(i + 1)[j]);
    }
    assert(n <= i);
    assert forall|j: int| 0 <= j < n implies is_assignment(#[trigger] us[j]) by {
        assert(ts[j] == us[j]);
    }
    lemma_split_index_at(us, n);
    assert(split_model(ts).0 =~= split_model(us).0);
}

/// Relies on `str::split_once` with a `char` pattern: it splits around the
/// first occurrence of `'='` and returns `None` when there is none.
#[verifier::external_body]
fn split_at_eq<'a>(s: &'a str) -> (r: Option<(&'a str, &'a str)>)
    ensures
        r is None <==> !s@.contains('='),
        r matches Some(p) ==> splits_at_first_eq(s@, p.0@, p.1@),
{
    s.split_once('=')
}

/// Splits off the leading `KEY=VALUE` tokens of `args`. Returns the pairs,
/// each split at its token's first `'='`, and the index of the first token
/// without an `'='` (the command), which is `args.len()` when there is none.
pub fn parse_input<'a>(args: &[&'a str]) -> (r: (Vec<(&'a str, &'a str)>, usize))
    ensures
        (pairs_view(r.0@), r.1 as nat) == split_model(tokens_view(args@)),
        r.0@.len() == r.1 <= args@.len(),
        forall|j: int|
            0 <= j < r.1 ==> splits_at_first_eq(
                #[trigger] args@[j]@,
                r.0@[j].0@,
                r.0@[j].1@,
            ),
        r.1 < args@.len() ==> !is_assignment(args@[r.1 as int]@),
{
    let ghost ts = tokens_view(args@);
    let mut idx: usize = 0;
    let mut v: Vec<(&'a str, &'a str)> = Vec::new();
    while idx < args.len()
        invariant
            ts == tokens_view(args@),
            idx <= args@.len(),
            v@.len() == idx,
            forall|j: int| 0 <= j < idx ==> is_assignment(#[trigger] ts[j]),
            forall|j: int|
                0 <= j < idx ==> splits_at_first_eq(#[trigger] args@[j]@, v@[j].0@, v@[j].1@),
        ensures
            idx < args@.len() ==> !is_assignment(ts[idx as int]),
        decreases args@.len() - idx,
    {
        match split_at_eq(args[idx]) {
            Some(pair) => {
                v.push(pair);
                idx = idx + 1;
            },
            None => {
                break;
            },
        }
    }
    proof {
        lemma_split_index_at(ts, idx as int);
        let m = split_model(ts);
        assert forall|j: int| 0 <= j < idx implies #[trigger] pairs_view(v@)[j] == m.0[j] by {
            assert(splits_at_first_eq(args@[j]@, v@[j].0@, v@[j].1@));
            lemma_first_eq_only(v@[j].0@, v@[j].1@);
        }
        assert(pairs_view(v@) =~= m.0);
    }
    (v, idx)
}

} // verus!
