//! Directive-string handling: each raw filter string is split on commas, the
//! pieces are trimmed of whitespace, and empty pieces are dropped; what
//! remains is the list of directive strings handed to the filter engine.

use vstd::prelude::*;

verus! {

/// A character with the Unicode `White_Space` property; these are the
/// characters trimming removes from the ends of a directive.
pub open spec fn ws_char(c: char) -> bool {
    ||| c == ' '
    ||| c == '\t'
    ||| c == '\n'
    ||| c == '\u{b}'
    ||| c == '\u{c}'
    ||| c == '\r'
    ||| c == '\u{85}'
    ||| c == '\u{a0}'
    ||| c == '\u{1680}'
    ||| c == '\u{2000}'
    ||| c == '\u{2001}'
    ||| c == '\u{2002}'
    ||| c == '\u{2003}'
    ||| c == '\u{2004}'
    ||| c == '\u{2005}'
    ||| c == '\u{2006}'
    ||| c == '\u{2007}'
    ||| c == '\u{2008}'
    ||| c == '\u{2009}'
    ||| c == '\u{200a}'
    ||| c == '\u{2028}'
    ||| c == '\u{2029}'
    ||| c == '\u{202f}'
    ||| c == '\u{205f}'
    ||| c == '\u{3000}'
}

/// Whether a character counts as whitespace for trimming.
pub fn is_ws(c: char) -> (r: bool)
    ensures
        r == ws_char(c),
{
    c == ' ' || c == '\t' || c == '\n' || c == '\u{b}' || c == '\u{c}' || c == '\r' || c == '\u{85}'
        || c == '\u{a0}' || c == '\u{1680}' || c == '\u{2000}' || c == '\u{2001}' || c == '\u{2002}'
        || c == '\u{2003}' || c == '\u{2004}' || c == '\u{2005}' || c == '\u{2006}' || c
        == '\u{2007}' || c == '\u{2008}' || c == '\u{2009}' || c == '\u{200a}' || c == '\u{2028}'
        || c == '\u{2029}' || c == '\u{202f}' || c == '\u{205f}' || c == '\u{3000}'
}

/// The sequence with leading whitespace removed.
pub open spec fn trim_front(s: Seq<char>) -> Seq<char>
    decreases s.len(),
{
    if s.len() > 0 && ws_char(s[0]) {
        trim_front(s.drop_first())
    } else {
        s
    }
}

/// The sequence with trailing whitespace removed.
pub open spec fn trim_back(s: Seq<char>) -> Seq<char>
    decreases s.len(),
{
    if s.len() > 0 && ws_char(s.last()) {
        trim_back(s.drop_last())
    } else {
        s
    }
}

/// The sequence with whitespace removed from both ends.
pub open spec fn trim_spec(s: Seq<char>) -> Seq<char> {
    trim_back(trim_front(s))
}

/// Splitting on commas, with `cur` the piece read so far: every comma ends a
/// piece, and the final piece is what remains when the input ends.
pub open spec fn split_rest(cur: Seq<char>, s: Seq<char>) -> Seq<Seq<char>>
    decreases s.len(),
{
    if s.len() == 0 {
        seq![cur]
    } else if s[0] == ',' {
        seq![cur] + split_rest(Seq::empty(), s.drop_first())
    } else {
        split_rest(cur.push(s[0]), s.drop_first())
    }
}

/// The comma-separated pieces of a sequence, in order; an input without
/// commas is one piece, and the empty input is one empty piece.
pub open spec fn split_comma(s: Seq<char>) -> Seq<Seq<char>> {
    split_rest(Seq::empty(), s)
}

/// The trimmed, non-empty pieces of a piece list, in order.
pub open spec fn clean_segs(segs: Seq<Seq<char>>) -> Seq<Seq<char>>
    decreases segs.len(),
{
    if segs.len() == 0 {
        Seq::empty()
    } else {
        (if trim_spec(segs[0]).len() > 0 {
            seq![trim_spec(segs[0])]
        } else {
            Seq::<Seq<char>>::empty()
        }) + clean_segs(segs.drop_first())
    }
}

/// The directive strings one raw filter string contributes: its
/// comma-separated pieces, trimmed, with empty pieces dropped.
pub open spec fn clean_split(s: Seq<char>) -> Seq<Seq<char>> {
    clean_segs(split_comma(s))
}

/// The directive strings a list of raw filter strings contributes, in order.
pub open spec fn directives_of(filters: Seq<Seq<char>>) -> Seq<Seq<char>>
    decreases filters.len(),
{
    if filters.len() == 0 {
        Seq::empty()
    } else {
        clean_split(filters[0]) + directives_of(filters.drop_first())
    }
}

/// Trimming removes all leading whitespace: what remains starts with a
/// non-whitespace character, if anything remains.
pub proof fn lemma_trim_front_no_leading(s: Seq<char>)
    ensures
        trim_front(s).len() > 0 ==> !ws_char(trim_front(s)[0]),
    decreases s.len(),
{
    if s.len() > 0 && ws_char(s[0]) {
        lemma_trim_front_no_leading(s.drop_first());
    }
}

/// Trimming removes all trailing whitespace: what remains ends with a
/// non-whitespace character, if anything remains.
pub proof fn lemma_trim_back_no_trailing(s: Seq<char>)
    ensures
        trim_back(s).len() > 0 ==> !ws_char(trim_back(s).last()),
    decreases s.len(),
{
    if s.len() > 0 && ws_char(s.last()) {
        lemma_trim_back_no_trailing(s.drop_last());
    }
}

/// Back-trimming yields a prefix of its input.
pub proof fn lemma_trim_back_prefix(s: Seq<char>)
    ensures
        trim_back(s).len() <= s.len(),
        forall|i: int| 0 <= i < trim_back(s).len() ==> trim_back(s)[i] == s[i],
    decreases s.len(),
{
    if s.len() > 0 && ws_char(s.last()) {
        lemma_trim_back_prefix(s.drop_last());
        assert forall|i: int| 0 <= i < trim_back(s).len() implies trim_back(s)[i] == s[i] by {
            assert(trim_back(s)[i] == trim_back(s.drop_last())[i]);
            assert(s.drop_last()[i] == s[i]);
        }
    }
}

/// Law: trimming is idempotent, so a trimmed string is trim-stable.
pub proof fn lemma_trim_idempotent(s: Seq<char>)
    ensures
        trim_spec(trim_spec(s)) == trim_spec(s),
{
    let t = trim_front(s);
    let r = trim_back(t);
    lemma_trim_front_no_leading(s);
    lemma_trim_back_no_trailing(t);
    lemma_trim_back_prefix(t);
    if r.len() > 0 {
        assert(r[0] == t[0]);
        assert(!ws_char(r[0]));
        assert(trim_front(r) == r);
        assert(!ws_char(r.last()));
        assert(trim_back(r) == r);
    } else {
        assert(r =~= Seq::<char>::empty());
        assert(trim_front(r) == r);
        assert(trim_back(r) == r);
    }
}

/// Every piece a piece list is cleaned to is itself trim-stable.
pub proof fn lemma_clean_segs_trim_stable(segs: Seq<Seq<char>>)
    ensures
        forall|k: int|
            0 <= k < clean_segs(segs).len() ==> #[trigger] clean_segs(segs)[k] == trim_spec(
                clean_segs(segs)[k],
            ),
    decreases segs.len(),
{
    if segs.len() > 0 {
        lemma_trim_idempotent(segs[0]);
        lemma_clean_segs_trim_stable(segs.drop_first());
        let head = if trim_spec(segs[0]).len() > 0 {
            seq![trim_spec(segs[0])]
        } else {
            Seq::<Seq<char>>::empty()
        };
        assert forall|k: int| 0 <= k < clean_segs(segs).len() implies #[trigger] clean_segs(
            segs,
        )[k] == trim_spec(clean_segs(segs)[k]) by {
            if k < head.len() {
                assert(clean_segs(segs)[k] == trim_spec(segs[0]));
            } else {
                assert(clean_segs(segs)[k] == clean_segs(segs.drop_first())[k - head.len()]);
            }
        }
    }
}

/// Every directive string the cleaner produces is trim-stable: splitting,
/// trimming and pruning yields strings that trimming leaves unchanged.
pub proof fn lemma_directives_of_trim_stable(filters: Seq<Seq<char>>)
    ensures
        forall|k: int|
            0 <= k < directives_of(filters).len() ==> #[trigger] directives_of(filters)[k]
                == trim_spec(directives_of(filters)[k]),
    decreases filters.len(),
{
    if filters.len() > 0 {
        lemma_clean_segs_trim_stable(split_comma(filters[0]));
        lemma_directives_of_trim_stable(filters.drop_first());
        assert forall|k: int| 0 <= k < directives_of(filters).len() implies #[trigger] directives_of(
            filters,
        )[k] == trim_spec(directives_of(filters)[k]) by {
            let head = clean_split(filters[0]);
            if k < head.len() {
                assert(directives_of(filters)[k] == clean_segs(split_comma(filters[0]))[k]);
            } else {
                assert(directives_of(filters)[k] == directives_of(filters.drop_first())[k
                    - head.len()]);
            }
        }
    }
}

proof fn lemma_clean_segs_concat(a: Seq<Seq<char>>, b: Seq<Seq<char>>)
    ensures
        clean_segs(a + b) == clean_segs(a) + clean_segs(b),
    decreases a.len(),
{
    if a.len() == 0 {
        assert(a + b =~= b);
        assert(clean_segs(a) + clean_segs(b) =~= clean_segs(b));
    } else {
        assert((a + b).drop_first() =~= a.drop_first() + b);
        lemma_clean_segs_concat(a.drop_first(), b);
        assert((a + b)[0] == a[0]);
        assert((if trim_spec(a[0]).len() > 0 {
            seq![trim_spec(a[0])]
        } else {
            Seq::<Seq<char>>::empty()
        }) + (clean_segs(a.drop_first()) + clean_segs(b)) =~= clean_segs(a) + clean_segs(b));
    }
}

proof fn lemma_clean_segs_one(x: Seq<char>)
    ensures
        clean_segs(seq![x]) == if trim_spec(x).len() > 0 {
            seq![trim_spec(x)]
        } else {
            Seq::<Seq<char>>::empty()
        },
{
    let head = if trim_spec(x).len() > 0 {
        seq![trim_spec(x)]
    } else {
        Seq::<Seq<char>>::empty()
    };
    assert(seq![x][0] == x);
    assert(seq![x].drop_first() =~= Seq::<Seq<char>>::empty());
    assert(clean_segs(Seq::<Seq<char>>::empty()) == Seq::<Seq<char>>::empty());
    assert(head + Seq::<Seq<char>>::empty() =~= head);
}

proof fn lemma_directives_of_concat(a: Seq<Seq<char>>, b: Seq<Seq<char>>)
    ensures
        directives_of(a + b) == directives_of(a) + directives_of(b),
    decreases a.len(),
{
    if a.len() == 0 {
        assert(a + b =~= b);
        assert(directives_of(a) + directives_of(b) =~= directives_of(b));
    } else {
        assert((a + b).drop_first() =~= a.drop_first() + b);
        lemma_directives_of_concat(a.drop_first(), b);
        assert((a + b)[0] == a[0]);
        assert(clean_split(a[0]) + (directives_of(a.drop_first()) + directives_of(b))
            =~= directives_of(a) + directives_of(b));
    }
}

proof fn lemma_directives_of_one(f: Seq<char>)
    ensures
        directives_of(seq![f]) == clean_split(f),
{
    assert(seq![f][0] == f);
    assert(seq![f].drop_first() =~= Seq::<Seq<char>>::empty());
    assert(clean_split(f) + directives_of(Seq::<Seq<char>>::empty()) =~= clean_split(f));
}

/// Relies on `str::chars`: the characters it yields are the string's view.
#[verifier::external_body]
fn chars_of(s: &str) -> (r: Vec<char>)
    ensures
        r@ == s@,
{
    s.chars().collect()
}

/// Relies on `String`'s `FromIterator` over characters: collecting characters
/// yields the string whose view is that character sequence.
#[verifier::external_body]
fn string_of(v: &Vec<char>) -> (r: String)
    ensures
        r@ == v@,
{
    v.iter().collect()
}

/// Remove whitespace from both ends of a character sequence.
pub fn trim_chars(v: &Vec<char>) -> (r: Vec<char>)
    ensures
        r@ == trim_spec(v@),
{
    let n = v.len();
    let mut b: usize = 0;
    proof {
        assert(v@.skip(0) =~= v@);
    }
    while b < n && is_ws(v[b])
        invariant
            n == v.len(),
            b <= n,
            trim_front(v@) == trim_front(v@.skip(b as int)),
        decreases n - b,
    {
        proof {
            assert(v@.skip(b as int)[0] == v@[b as int]);
            assert(v@.skip(b as int).drop_first() =~= v@.skip(b as int + 1));
        }
        b = b + 1;
    }
    proof {
        if b < n {
            assert(trim_front(v@.skip(b as int)) == v@.skip(b as int));
        } else {
            assert(v@.skip(b as int) =~= Seq::<char>::empty());
        }
        assert(trim_front(v@) == v@.skip(b as int));
        assert(v@.skip(b as int) =~= v@.subrange(b as int, n as int));
    }
    let mut e: usize = n;
    while e > b && is_ws(v[e - 1])
        invariant
            n == v.len(),
            b <= e <= n,
            trim_front(v@) == v@.skip(b as int),
            trim_back(v@.skip(b as int)) == trim_back(v@.subrange(b as int, e as int)),
        decreases e,
    {
        proof {
            assert(v@.subrange(b as int, e as int).last() == v@[e - 1]);
            assert(v@.subrange(b as int, e as int).drop_last() =~= v@.subrange(
                b as int,
                e - 1,
            ));
        }
        e = e - 1;
    }
    proof {
        if e > b {
            assert(v@.subrange(b as int, e as int).last() == v@[e - 1]);
            assert(trim_back(v@.subrange(b as int, e as int)) == v@.subrange(b as int, e as int));
        } else {
            assert(v@.subrange(b as int, e as int) =~= Seq::<char>::empty());
        }
        assert(trim_spec(v@) == v@.subrange(b as int, e as int));
    }
    let mut r: Vec<char> = Vec::new();
    let mut k: usize = b;
    proof {
        assert(r@ =~= v@.subrange(b as int, b as int));
    }
    while k < e
        invariant
            n == v.len(),
            b <= k <= e <= n,
            r@ == v@.subrange(b as int, k as int),
            trim_spec(v@) == v@.subrange(b as int, e as int),
        decreases e - k,
    {
        r.push(v[k]);
        proof {
            assert(v@.subrange(b as int, k as int).push(v@[k as int]) =~= v@.subrange(
                b as int,
                k as int + 1,
            ));
        }
        k = k + 1;
    }
    r
}

/// Split a character sequence on commas into its pieces.
pub fn split_commas(v: &Vec<char>) -> (r: Vec<Vec<char>>)
    ensures
        r.deep_view() == split_comma(v@),
{
    let n = v.len();
    let mut out: Vec<Vec<char>> = Vec::new();
    let mut cur: Vec<char> = Vec::new();
    proof {
        assert(out.deep_view() =~= Seq::<Seq<char>>::empty());
        assert(cur@ =~= Seq::<char>::empty());
        assert(v@.skip(0) =~= v@);
    }
    for i in 0..n
        invariant
            n == v.len(),
            split_comma(v@) == out.deep_view() + split_rest(cur@, v@.skip(i as int)),
    {
        proof {
            assert(v@.skip(i as int)[0] == v@[i as int]);
            assert(v@.skip(i as int).drop_first() =~= v@.skip(i as int + 1));
        }
        if v[i] == ',' {
            let ghost outdv = out.deep_view();
            let ghost cv = cur@;
            out.push(cur);
            cur = Vec::new();
            proof {
                assert(out.deep_view() =~~= outdv.push(cv));
                assert(cur@ =~= Seq::<char>::empty());
                assert(outdv.push(cv) + split_rest(Seq::empty(), v@.skip(i as int + 1)) =~= outdv
                    + (seq![cv] + split_rest(Seq::empty(), v@.skip(i as int + 1))));
            }
        } else {
            cur.push(v[i]);
        }
    }
    proof {
        assert(v@.skip(n as int) =~= Seq::<char>::empty());
    }
    let ghost outdv = out.deep_view();
    let ghost cv = cur@;
    out.push(cur);
    proof {
        assert(out.deep_view() =~~= outdv.push(cv));
        assert(outdv.push(cv) =~= outdv + seq![cv]);
    }
    out
}

/// Turn raw filter strings into the directive strings they denote: split each
/// on commas, trim every piece, and drop the pieces that are then empty.
pub fn clean_directives(filters: &Vec<String>) -> (r: Vec<String>)
    ensures
        r.deep_view() == directives_of(filters.deep_view()),
{
    let mut r: Vec<String> = Vec::new();
    let n = filters.len();
    proof {
        assert(r.deep_view() =~= Seq::<Seq<char>>::empty());
        assert(filters.deep_view().take(0) =~= Seq::<Seq<char>>::empty());
    }
    for i in 0..n
        invariant
            n == filters.len(),
            r.deep_view() == directives_of(filters.deep_view().take(i as int)),
    {
        let chars = chars_of(filters[i].as_str());
        let segs = split_commas(&chars);
        proof {
            assert(chars@ == filters.deep_view()[i as int]);
            assert(segs.deep_view().take(0) =~= Seq::<Seq<char>>::empty());
        }
        let m = segs.len();
        let ghost base = r.deep_view();
        for j in 0..m
            invariant
                m == segs.len(),
                segs.deep_view() == split_comma(filters.deep_view()[i as int]),
                r.deep_view() == base + clean_segs(segs.deep_view().take(j as int)),
        {
            let t = trim_chars(&segs[j]);
            proof {
                assert(segs[j as int]@ == segs.deep_view()[j as int]);
            }
            if t.len() > 0 {
                let s = string_of(&t);
                let ghost rdv = r.deep_view();
                r.push(s);
                proof {
                    assert(r.deep_view() =~~= rdv.push(t@));
                }
            }
            proof {
                let sdv = segs.deep_view();
                lemma_clean_segs_concat(sdv.take(j as int), seq![sdv[j as int]]);
                assert(sdv.take(j as int) + seq![sdv[j as int]] =~= sdv.take(j as int + 1));
                lemma_clean_segs_one(sdv[j as int]);
                assert(r.deep_view() =~= base + clean_segs(sdv.take(j as int + 1)));
            }
        }
        proof {
            let fdv = filters.deep_view();
            assert(segs.deep_view().take(m as int) =~= segs.deep_view());
            lemma_directives_of_concat(fdv.take(i as int), seq![fdv[i as int]]);
            assert(fdv.take(i as int) + seq![fdv[i as int]] =~= fdv.take(i as int + 1));
            lemma_directives_of_one(fdv[i as int]);
            assert(r.deep_view() =~= directives_of(fdv.take(i as int + 1)));
        }
    }
    proof {
        assert(filters.deep_view().take(n as int) =~= filters.deep_view());
    }
    r
}

} // verus!
