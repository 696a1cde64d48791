//! Whitespace splitting and joining of protocol text.
//!
//! The wire protocol is tokenized on Unicode whitespace, exactly the set
//! recognized by `char::is_whitespace`.  `split_ws` is the specification of
//! that tokenization; `tokenize` is its executable counterpart.

use vstd::prelude::*;

verus! {

/// True of the characters with the Unicode `White_Space` property,
/// the set `char::is_whitespace` recognizes.
pub open spec fn is_wspace(c: char) -> bool {
    ||| c as u32 == 0x20
    ||| (0x9 <= c as u32 && c as u32 <= 0xd)
    ||| c as u32 == 0x85
    ||| c as u32 == 0xa0
    ||| c as u32 == 0x1680
    ||| (0x2000 <= c as u32 && c as u32 <= 0x200a)
    ||| c as u32 == 0x2028
    ||| c as u32 == 0x2029
    ||| c as u32 == 0x202f
    ||| c as u32 == 0x205f
    ||| c as u32 == 0x3000
}

/// Executable whitespace test.
pub fn is_wspace_char(c: char) -> (r: bool)
    ensures
        r == is_wspace(c),
{
    let u = c as u32;
    u == 0x20 || (0x9 <= u && u <= 0xd) || u == 0x85 || u == 0xa0 || u == 0x1680 || (0x2000 <= u
        && u <= 0x200a) || u == 0x2028 || u == 0x2029 || u == 0x202f || u == 0x205f || u == 0x3000
}

/// Length of the maximal non-whitespace prefix.
pub open spec fn token_len(s: Seq<char>) -> nat
    decreases s.len(),
{
    if s.len() == 0 || is_wspace(s[0]) {
        0
    } else {
        1 + token_len(s.drop_first())
    }
}

/// Splitting on whitespace, one character at a time; `cur` is the token
/// gathered so far.
pub open spec fn split_ws_acc(s: Seq<char>, cur: Seq<char>) -> Seq<Seq<char>>
    decreases s.len(),
{
    if s.len() == 0 {
        if cur.len() == 0 {
            seq![]
        } else {
            seq![cur]
        }
    } else if is_wspace(s[0]) {
        if cur.len() == 0 {
            split_ws_acc(s.drop_first(), seq![])
        } else {
            seq![cur] + split_ws_acc(s.drop_first(), seq![])
        }
    } else {
        split_ws_acc(s.drop_first(), cur + seq![s[0]])
    }
}

/// The whitespace-separated tokens of `s`, as `str::split_whitespace`
/// would produce them: maximal non-empty runs of non-whitespace characters.
pub open spec fn split_ws(s: Seq<char>) -> Seq<Seq<char>> {
    split_ws_acc(s, seq![])
}

/// The tokens joined back with single spaces.
pub open spec fn join_sp(toks: Seq<Seq<char>>) -> Seq<char>
    decreases toks.len(),
{
    if toks.len() == 0 {
        seq![]
    } else if toks.len() == 1 {
        toks[0]
    } else {
        toks[0] + seq![' '] + join_sp(toks.drop_first())
    }
}

/// Basic facts about `token_len`: it is the length of the maximal
/// non-whitespace prefix.
pub proof fn lemma_token_len(s: Seq<char>)
    ensures
        token_len(s) <= s.len(),
        forall|j: int| 0 <= j < token_len(s) ==> !is_wspace(s[j]),
        token_len(s) < s.len() ==> is_wspace(s[token_len(s) as int]),
        s.len() > 0 && !is_wspace(s[0]) ==> token_len(s) >= 1,
    decreases s.len(),
{
    if s.len() == 0 || is_wspace(s[0]) {
    } else {
        lemma_token_len(s.drop_first());
        assert(forall|j: int| 0 <= j < token_len(s) ==> !is_wspace(s[j])) by {
            assert forall|j: int| 0 <= j < token_len(s) implies !is_wspace(s[j]) by {
                if j > 0 {
                    assert(s.drop_first()[j - 1] == s[j]);
                }
            }
        }
        if token_len(s) < s.len() {
            assert(s.drop_first()[token_len(s) as int - 1] == s[token_len(s) as int]);
        }
    }
}

/// Scanning a run of non-whitespace characters only extends the current
/// token.
pub proof fn lemma_split_acc_scan(s: Seq<char>, cur: Seq<char>, k: int)
    requires
        0 <= k <= s.len(),
        forall|j: int| 0 <= j < k ==> !is_wspace(s[j]),
    ensures
        split_ws_acc(s, cur) == split_ws_acc(s.skip(k), cur + s.take(k)),
    decreases k,
{
    if k == 0 {
        assert(s.skip(0) =~= s);
        assert(cur + s.take(0) =~= cur);
    } else {
        assert(!is_wspace(s[0]));
        lemma_split_acc_scan(s.drop_first(), cur + seq![s[0]], k - 1);
        assert(s.drop_first().skip(k - 1) =~= s.skip(k));
        assert((cur + seq![s[0]]) + s.drop_first().take(k - 1) =~= cur + s.take(k));
    }
}

/// At a whitespace character, a non-empty current token is flushed.
pub proof fn lemma_split_acc_flush(s: Seq<char>, cur: Seq<char>)
    requires
        cur.len() > 0,
        s.len() == 0 || is_wspace(s[0]),
    ensures
        s.len() == 0 ==> split_ws_acc(s, cur) == seq![cur],
        s.len() > 0 ==> split_ws_acc(s, cur) == seq![cur] + split_ws_acc(s.drop_first(), seq![]),
{
}

/// One whole token step of the splitter: from the start of a token at
/// position `i` running to `j` (the next whitespace or the end), the result
/// is that token followed by the split of the rest.
pub proof fn lemma_split_token_step(s: Seq<char>, i: int, j: int)
    requires
        0 <= i < j <= s.len(),
        forall|k: int| i <= k < j ==> !is_wspace(s[k]),
        j == s.len() || is_wspace(s[j]),
    ensures
        j == s.len() ==> split_ws_acc(s.skip(i), seq![]) == seq![s.subrange(i, j)],
        j < s.len() ==> split_ws_acc(s.skip(i), seq![]) == seq![s.subrange(i, j)] + split_ws_acc(
            s.skip(j + 1),
            seq![],
        ),
{
    let tail = s.skip(i);
    assert(forall|k: int| 0 <= k < j - i ==> tail[k] == s[k + i]);
    lemma_split_acc_scan(tail, seq![], j - i);
    assert(seq![] + tail.take(j - i) =~= s.subrange(i, j));
    assert(tail.skip(j - i) =~= s.skip(j));
    if j == s.len() {
        assert(s.skip(j).len() == 0);
        assert(s.subrange(i, j).len() > 0);
    } else {
        assert(s.skip(j)[0] == s[j]);
        lemma_split_acc_flush(s.skip(j), s.subrange(i, j));
        assert(s.skip(j).drop_first() =~= s.skip(j + 1));
    }
}

/// Skipping one leading whitespace character leaves the split unchanged.
pub proof fn lemma_split_skip_space(s: Seq<char>, i: int)
    requires
        0 <= i < s.len(),
        is_wspace(s[i]),
    ensures
        split_ws_acc(s.skip(i), seq![]) == split_ws_acc(s.skip(i + 1), seq![]),
{
    assert(s.skip(i)[0] == s[i]);
    assert(s.skip(i).drop_first() =~= s.skip(i + 1));
}

/// A trailing whitespace character never changes the split.
pub proof fn lemma_split_push_space(s: Seq<char>, cur: Seq<char>, w: char)
    requires
        is_wspace(w),
    ensures
        split_ws_acc(s.push(w), cur) == split_ws_acc(s, cur),
    decreases s.len(),
{
    if s.len() == 0 {
        assert(s.push(w)[0] == w);
        assert(s.push(w).drop_first() =~= Seq::<char>::empty());
        if cur.len() > 0 {
            assert(seq![cur] + split_ws_acc(s.push(w).drop_first(), seq![]) =~= seq![cur]);
        }
    } else {
        assert(s.push(w)[0] == s[0]);
        assert(s.push(w).drop_first() =~= s.drop_first().push(w));
        if is_wspace(s[0]) {
            lemma_split_push_space(s.drop_first(), seq![], w);
        } else {
            lemma_split_push_space(s.drop_first(), cur + seq![s[0]], w);
        }
    }
}

/// Text in the canonical shape the joiner produces: non-empty, every
/// whitespace character is a single space, and no space stands first, last,
/// or next to another.
pub open spec fn canonical_text(u: Seq<char>) -> bool {
    &&& u.len() > 0
    &&& !is_wspace(u[0])
    &&& forall|i: int|
        0 <= i < u.len() && #[trigger] is_wspace(u[i]) ==> u[i] == ' ' && i + 1 < u.len()
            && !is_wspace(u[i + 1])
}

/// Joining the tokens of canonical text gives the text back.
pub proof fn lemma_join_split(u: Seq<char>)
    requires
        canonical_text(u),
    ensures
        split_ws(u).len() >= 1,
        join_sp(split_ws(u)) == u,
    decreases u.len(),
{
    let k = token_len(u) as int;
    lemma_token_len(u);
    lemma_split_token_step(u, 0, k);
    assert(u.skip(0) =~= u);
    if k == u.len() {
        assert(u.subrange(0, k) =~= u);
    } else {
        assert(u[k] == ' ' && k + 1 < u.len() && !is_wspace(u[k + 1]));
        let rest = u.skip(k + 1);
        assert(canonical_text(rest)) by {
            assert(rest[0] == u[k + 1]);
            assert forall|i: int|
                0 <= i < rest.len() && #[trigger] is_wspace(rest[i]) implies rest[i] == ' ' && i + 1
                < rest.len() && !is_wspace(rest[i + 1]) by {
                assert(rest[i] == u[i + k + 1]);
                assert(i + k + 1 + 1 < u.len() ==> rest[i + 1] == u[i + k + 2]);
            }
        }
        lemma_join_split(rest);
        let toks = split_ws(u);
        assert(toks == seq![u.subrange(0, k)] + split_ws(rest));
        assert(toks.len() >= 2);
        assert(toks.drop_first() =~= split_ws(rest));
        assert(join_sp(toks) == u.subrange(0, k) + seq![' '] + u.skip(k + 1));
        assert(u.subrange(0, k) + seq![' '] + u.skip(k + 1) =~= u);
    }
}

/// Text whose whitespace, if any, is a lone space between two other
/// characters or at the very end: what joining with single spaces can
/// produce inside surrounding anchors.
pub open spec fn single_spaced(t: Seq<char>) -> bool {
    forall|i: int|
        0 <= i < t.len() && #[trigger] is_wspace(t[i]) ==> t[i] == ' ' && (i + 1 == t.len()
            || !is_wspace(t[i + 1]))
}

/// A single run of non-whitespace characters splits into itself.
pub proof fn lemma_split_single_token(a: Seq<char>)
    requires
        a.len() > 0,
        forall|i: int| 0 <= i < a.len() ==> !is_wspace(a[i]),
    ensures
        split_ws(a) == seq![a],
{
    lemma_split_token_step(a, 0, a.len() as int);
    assert(a.skip(0) =~= a);
    assert(a.subrange(0, a.len() as int) =~= a);
}

/// A leading token, one space, and the rest split into the token followed
/// by the split of the rest.
pub proof fn lemma_split_leading_token(a: Seq<char>, rest: Seq<char>)
    requires
        a.len() > 0,
        forall|i: int| 0 <= i < a.len() ==> !is_wspace(a[i]),
    ensures
        split_ws(a + seq![' '] + rest) == seq![a] + split_ws(rest),
{
    let s = a + seq![' '] + rest;
    let k = a.len() as int;
    assert(forall|i: int| 0 <= i < k ==> s[i] == a[i]);
    assert(s[k] == ' ');
    lemma_split_token_step(s, 0, k);
    assert(s.skip(0) =~= s);
    assert(s.subrange(0, k) =~= a);
    assert(s.skip(k + 1) =~= rest);
}

/// Two tokens joined by a single space split back into the two tokens.
pub proof fn lemma_split_two_tokens(a: Seq<char>, b: Seq<char>)
    requires
        a.len() > 0,
        b.len() > 0,
        forall|i: int| 0 <= i < a.len() ==> !is_wspace(a[i]),
        forall|i: int| 0 <= i < b.len() ==> !is_wspace(b[i]),
    ensures
        split_ws(a + seq![' '] + b) == seq![a, b],
{
    lemma_split_leading_token(a, b);
    lemma_split_single_token(b);
    assert(seq![a] + seq![b] =~= seq![a, b]);
}

/// Executable string equality over views: two `&str` are equal exactly when
/// their character sequences are.
pub fn str_eq(a: &str, b: &str) -> (r: bool)
    ensures
        r == (a@ == b@),
{
    let na = a.unicode_len();
    let nb = b.unicode_len();
    if na != nb {
        return false;
    }
    let mut i: usize = 0;
    while i < na
        invariant
            na == a@.len(),
            na == b@.len(),
            i <= na,
            forall|k: int| 0 <= k < i ==> a@[k] == b@[k],
        decreases na - i,
    {
        if a.get_char(i) != b.get_char(i) {
            return false;
        }
        i = i + 1;
    }
    proof {
        assert(a@ =~= b@);
    }
    true
}

/// Splits a string on whitespace into its (borrowed) tokens.
pub fn tokenize<'a>(s: &'a str) -> (tokens: Vec<&'a str>)
    ensures
        tokens.deep_view() == split_ws(s@),
{
    let n = s.unicode_len();
    let mut tokens: Vec<&'a str> = Vec::new();
    let mut i: usize = 0;
    proof {
        assert(s@.skip(0) =~= s@);
        assert(tokens.deep_view() =~= Seq::<Seq<char>>::empty());
    }
    while i < n
        invariant
            n == s@.len(),
            i <= n,
            split_ws(s@) == tokens.deep_view() + split_ws_acc(s@.skip(i as int), seq![]),
        decreases n - i,
    {
        let c = s.get_char(i);
        if is_wspace_char(c) {
            proof {
                lemma_split_skip_space(s@, i as int);
            }
            i = i + 1;
        } else {
            let mut j = i + 1;
            while j < n
                invariant
                    n == s@.len(),
                    i < j <= n,
                    forall|k: int| i <= k < j ==> !is_wspace(s@[k]),
                ensures
                    i < j <= n,
                    forall|k: int| i <= k < j ==> !is_wspace(s@[k]),
                    j == n || is_wspace(s@[j as int]),
                decreases n - j,
            {
                let cj = s.get_char(j);
                if is_wspace_char(cj) {
                    break ;
                }
                j = j + 1;
            }
            let tok = s.substring_char(i, j);
            let ghost prev = tokens.deep_view();
            tokens.push(tok);
            proof {
                assert(tokens.deep_view() =~= prev.push(tok@));
                lemma_split_token_step(s@, i as int, j as int);
                if j < n {
                    lemma_split_skip_space(s@, j as int);
                }
                assert(prev.push(tok@) + split_ws_acc(s@.skip(j as int), seq![]) =~= prev + (seq![
                    tok@,
                ] + split_ws_acc(s@.skip(j as int), seq![])));
            }
            i = j;
        }
    }
    proof {
        assert(s@.skip(n as int) =~= Seq::<char>::empty());
        assert(tokens.deep_view() + split_ws_acc(s@.skip(n as int), seq![]) =~= tokens.deep_view());
    }
    tokens
}

/// Joins `tokens[from..]` with single spaces, the inverse of `tokenize`
/// on canonical text.
pub fn join_from(tokens: &Vec<&str>, from: usize) -> (r: String)
    requires
        from <= tokens.len(),
    ensures
        r@ == join_sp(tokens.deep_view().skip(from as int)),
    decreases tokens.len() - from,
{
    proof {
        reveal_strlit(" ");
    }
    if from == tokens.len() {
        proof {
            assert(tokens.deep_view().skip(from as int) =~= Seq::<Seq<char>>::empty());
        }
        String::new()
    } else if from + 1 == tokens.len() {
        proof {
            assert(tokens.deep_view().skip(from as int) =~= seq![tokens@[from as int]@]);
        }
        let t: &str = tokens[from];
        t.to_owned()
    } else {
        let t: &str = tokens[from];
        let mut out = t.to_owned();
        out.append(" ");
        let rest = join_from(tokens, from + 1);
        out.append(rest.as_str());
        proof {
            let dv = tokens.deep_view();
            assert(dv.skip(from as int).len() >= 2);
            assert(dv.skip(from as int)[0] == tokens@[from as int]@);
            assert(dv.skip(from as int).drop_first() =~= dv.skip(from as int + 1));
            assert(" "@ =~= seq![' ']);
        }
        out
    }
}

} // verus!
