//! Content normalizer: flattens an article body from markup to chat-ready
//! plain text.
//!
//! The transformation has three steps, in this order:
//! 1. line-break disambiguation: a newline whose preceding byte is not `>`
//!    is an in-paragraph wrap and becomes a single space; a newline right
//!    after `>` is structural and is kept (the scan is left-to-right and
//!    non-overlapping: the byte kept in front of a converted newline is not
//!    considered again as the following newline's predecessor);
//! 2. a fixed-order chain of literal substring replacements that strips
//!    paragraph and list markup, turns list items into `- ` bullets and pads
//!    closed preformatted blocks with a blank line;
//! 3. trimming of leading and trailing whitespace.
//!
//! Every step is defined as a spec function over `Seq<u8>` and the exec code
//! is proved to compute exactly that.

use vstd::prelude::*;

verus! {

/// `\n`
pub const NL: u8 = 10;
/// space
pub const SP: u8 = 32;
/// `>`
pub const GT: u8 = 62;
/// `<`
pub const LT: u8 = 60;

/// Step 1 as a function on byte strings: scan left to right; whenever the
/// next two bytes are (not `>`, `\n`), keep the first and turn the newline
/// into a space, then continue after the pair.
pub open spec fn space_newlines(s: Seq<u8>) -> Seq<u8>
    decreases s.len(),
{
    if s.len() < 2 {
        s
    } else if s[1] == NL && s[0] != GT {
        seq![s[0], SP] + space_newlines(s.skip(2))
    } else {
        seq![s[0]] + space_newlines(s.skip(1))
    }
}

/// The newline pass never inserts or removes a byte.
pub proof fn lemma_space_newlines_len(s: Seq<u8>)
    ensures
        space_newlines(s).len() == s.len(),
    decreases s.len(),
{
    if s.len() < 2 {
    } else if s[1] == NL && s[0] != GT {
        lemma_space_newlines_len(s.skip(2));
    } else {
        lemma_space_newlines_len(s.skip(1));
    }
}

/// A byte string without newlines passes through step 1 unchanged.
pub proof fn lemma_space_newlines_no_newline(s: Seq<u8>)
    requires
        forall|j: int| 0 <= j < s.len() ==> s[j] != NL,
    ensures
        space_newlines(s) == s,
    decreases s.len(),
{
    if s.len() < 2 {
    } else {
        assert(s[1] != NL);
        lemma_space_newlines_no_newline(s.skip(1));
        assert(seq![s[0]] + s.skip(1) =~= s);
    }
}

/// Computes step 1.
pub fn space_newlines_exec(s: &Vec<u8>) -> (out: Vec<u8>)
    ensures
        out@ == space_newlines(s@),
{
    let mut out: Vec<u8> = Vec::new();
    let mut i: usize = 0;
    proof {
        assert(s@.skip(0) =~= s@);
        assert(Seq::<u8>::empty() + space_newlines(s@) =~= space_newlines(s@));
    }
    while i < s.len()
        invariant
            i <= s@.len(),
            space_newlines(s@) == out@ + space_newlines(s@.skip(i as int)),
        decreases s@.len() - i,
    {
        let ghost rest = s@.skip(i as int);
        if i + 1 < s.len() && s[i + 1] == NL && s[i] != GT {
            out.push(s[i]);
            out.push(SP);
            proof {
                assert(rest.len() >= 2 && rest[1] == NL && rest[0] != GT);
                assert(rest.skip(2) =~= s@.skip(i + 2));
                assert(out@ + space_newlines(s@.skip(i + 2)) =~= (out@.subrange(
                    0,
                    out@.len() - 2,
                ) + seq![rest[0], SP]) + space_newlines(rest.skip(2)));
                assert(out@.subrange(0, out@.len() - 2) + (seq![rest[0], SP] + space_newlines(
                    rest.skip(2),
                )) =~= (out@.subrange(0, out@.len() - 2) + seq![rest[0], SP]) + space_newlines(
                    rest.skip(2),
                ));
            }
            i = i + 2;
        } else {
            out.push(s[i]);
            proof {
                if rest.len() < 2 {
                    assert(rest =~= seq![rest[0]] + rest.skip(1));
                    assert(rest.skip(1) =~= s@.skip(i + 1));
                    assert(space_newlines(rest.skip(1)) == rest.skip(1));
                } else {
                    assert(!(rest[1] == NL && rest[0] != GT));
                    assert(rest.skip(1) =~= s@.skip(i + 1));
                }
                assert(out@ + space_newlines(s@.skip(i + 1)) =~= (out@.subrange(
                    0,
                    out@.len() - 1,
                ) + seq![rest[0]]) + space_newlines(rest.skip(1)));
                assert(out@.subrange(0, out@.len() - 1) + (seq![rest[0]] + space_newlines(
                    rest.skip(1),
                )) =~= (out@.subrange(0, out@.len() - 1) + seq![rest[0]]) + space_newlines(
                    rest.skip(1),
                ));
            }
            i = i + 1;
        }
    }
    proof {
        assert(s@.skip(s@.len() as int) =~= Seq::<u8>::empty());
        assert(out@ + space_newlines(s@.skip(s@.len() as int)) =~= out@);
    }
    out
}

/// The pattern `pat` occurs in `s` at position `i`.
pub open spec fn is_match_at(s: Seq<u8>, pat: Seq<u8>, i: int) -> bool {
    &&& 0 <= i
    &&& i + pat.len() <= s.len()
    &&& s.subrange(i, i + pat.len()) == pat
}

/// Replaces every occurrence of `pat` in `s` by `rep`, scanning left to
/// right without overlap and without rescanning replacements, as a literal
/// substring substitution does.  A pattern longer than the rest of the text
/// (in particular, an empty `s`) leaves the rest unchanged.
pub open spec fn replace_all(s: Seq<u8>, pat: Seq<u8>, rep: Seq<u8>) -> Seq<u8>
    decreases s.len(),
{
    if pat.len() == 0 || pat.len() > s.len() {
        s
    } else if s.subrange(0, pat.len() as int) == pat {
        rep + replace_all(s.skip(pat.len() as int), pat, rep)
    } else {
        seq![s[0]] + replace_all(s.skip(1), pat, rep)
    }
}

/// Unfolds `replace_all` by one matched occurrence at the front of `s.skip(i)`.
proof fn lemma_replace_step_match(s: Seq<u8>, pat: Seq<u8>, rep: Seq<u8>, i: int)
    requires
        pat.len() >= 1,
        is_match_at(s, pat, i),
    ensures
        replace_all(s.skip(i), pat, rep) == rep + replace_all(
            s.skip(i + pat.len()),
            pat,
            rep,
        ),
{
    let rest = s.skip(i);
    assert(rest.subrange(0, pat.len() as int) =~= s.subrange(i, i + pat.len()));
    assert(rest.skip(pat.len() as int) =~= s.skip(i + pat.len()));
}

/// Unfolds `replace_all` by one unmatched byte at the front of `s.skip(i)`.
proof fn lemma_replace_step_byte(s: Seq<u8>, pat: Seq<u8>, rep: Seq<u8>, i: int)
    requires
        pat.len() >= 1,
        0 <= i < s.len(),
        !is_match_at(s, pat, i),
    ensures
        replace_all(s.skip(i), pat, rep) == seq![s[i]] + replace_all(
            s.skip(i + 1),
            pat,
            rep,
        ),
{
    let rest = s.skip(i);
    assert(rest.skip(1) =~= s.skip(i + 1));
    if pat.len() > rest.len() {
        assert(replace_all(rest, pat, rep) == rest);
        assert(pat.len() > rest.skip(1).len());
        assert(rest =~= seq![s[i]] + rest.skip(1));
    } else {
        assert(rest.subrange(0, pat.len() as int) =~= s.subrange(i, i + pat.len()));
        assert(rest.subrange(0, pat.len() as int) != pat);
    }
}

/// A pattern whose first byte never occurs in `s` replaces nothing.
pub proof fn lemma_replace_all_absent(s: Seq<u8>, pat: Seq<u8>, rep: Seq<u8>)
    requires
        pat.len() >= 1,
        forall|j: int| 0 <= j < s.len() ==> s[j] != pat[0],
    ensures
        replace_all(s, pat, rep) == s,
    decreases s.len(),
{
    if pat.len() > s.len() {
    } else {
        assert(s.subrange(0, pat.len() as int) != pat) by {
            assert(s.subrange(0, pat.len() as int)[0] == s[0]);
        }
        lemma_replace_all_absent(s.skip(1), pat, rep);
        assert(seq![s[0]] + s.skip(1) =~= s);
    }
}

/// Tests whether `pat` occurs in `s` at position `i`.
fn match_at(s: &Vec<u8>, pat: &Vec<u8>, i: usize) -> (r: bool)
    requires
        i <= s@.len(),
    ensures
        r == is_match_at(s@, pat@, i as int),
{
    if pat.len() > s.len() - i {
        return false;
    }
    let mut j: usize = 0;
    while j < pat.len()
        invariant
            j <= pat@.len(),
            i + pat@.len() <= s@.len(),
            s@.len() <= usize::MAX,
            forall|k: int| 0 <= k < j ==> s@[i + k] == pat@[k],
        decreases pat@.len() - j,
    {
        let idx: usize = i + j;
        if s[idx] != pat[j] {
            proof {
                assert(s@.subrange(i as int, i + pat@.len())[j as int] == s@[idx as int]);
            }
            return false;
        }
        j = j + 1;
    }
    proof {
        assert(s@.subrange(i as int, i + pat@.len()) =~= pat@);
    }
    true
}

/// Computes `replace_all`.
pub fn replace_all_exec(s: &Vec<u8>, pat: &Vec<u8>, rep: &Vec<u8>) -> (out: Vec<u8>)
    requires
        pat@.len() >= 1,
    ensures
        out@ == replace_all(s@, pat@, rep@),
{
    let mut out: Vec<u8> = Vec::new();
    let mut i: usize = 0;
    proof {
        assert(s@.skip(0) =~= s@);
        assert(Seq::<u8>::empty() + replace_all(s@, pat@, rep@) =~= replace_all(
            s@,
            pat@,
            rep@,
        ));
    }
    while i < s.len()
        invariant
            i <= s@.len(),
            pat@.len() >= 1,
            replace_all(s@, pat@, rep@) == out@ + replace_all(s@.skip(i as int), pat@, rep@),
        decreases s@.len() - i,
    {
        let ghost prefix = out@;
        if match_at(s, pat, i) {
            crate::text::append_bytes(&mut out, rep);
            proof {
                lemma_replace_step_match(s@, pat@, rep@, i as int);
                assert(prefix + (rep@ + replace_all(s@.skip(i + pat@.len()), pat@, rep@))
                    =~= (prefix + rep@) + replace_all(s@.skip(i + pat@.len()), pat@, rep@));
            }
            i = i + pat.len();
        } else {
            out.push(s[i]);
            proof {
                lemma_replace_step_byte(s@, pat@, rep@, i as int);
                assert(prefix + (seq![s@[i as int]] + replace_all(s@.skip(i + 1), pat@, rep@))
                    =~= (prefix + seq![s@[i as int]]) + replace_all(s@.skip(i + 1), pat@, rep@));
            }
            i = i + 1;
        }
    }
    proof {
        assert(s@.skip(s@.len() as int) =~= Seq::<u8>::empty());
        assert(out@ + replace_all(s@.skip(s@.len() as int), pat@, rep@) =~= out@);
    }
    out
}

/// ASCII whitespace, the bytes that count as blank at the edges of a message.
pub open spec fn is_ws(b: u8) -> bool {
    b == SP || b == 9 || b == NL || b == 11 || b == 12 || b == 13
}

/// Drops leading whitespace.
pub open spec fn trim_front(s: Seq<u8>) -> Seq<u8>
    decreases s.len(),
{
    if s.len() > 0 && is_ws(s[0]) {
        trim_front(s.skip(1))
    } else {
        s
    }
}

/// Drops trailing whitespace.
pub open spec fn trim_back(s: Seq<u8>) -> Seq<u8>
    decreases s.len(),
{
    if s.len() > 0 && is_ws(s[s.len() - 1]) {
        trim_back(s.take(s.len() - 1))
    } else {
        s
    }
}

/// Step 3: drops whitespace at both ends.
pub open spec fn trim(s: Seq<u8>) -> Seq<u8> {
    trim_back(trim_front(s))
}

/// `trim_front` removes exactly the run of whitespace at the front.
proof fn lemma_trim_front_skip(s: Seq<u8>, k: int)
    requires
        0 <= k <= s.len(),
        forall|j: int| 0 <= j < k ==> is_ws(s[j]),
        k < s.len() ==> !is_ws(s[k]),
    ensures
        trim_front(s) == s.skip(k),
    decreases k,
{
    if k == 0 {
        assert(s.skip(0) =~= s);
    } else {
        assert(is_ws(s[0]));
        lemma_trim_front_skip(s.skip(1), k - 1);
        assert(s.skip(1).skip(k - 1) =~= s.skip(k));
    }
}

/// `trim_back` removes exactly the run of whitespace at the back.
proof fn lemma_trim_back_take(s: Seq<u8>, m: int)
    requires
        0 <= m <= s.len(),
        forall|j: int| m <= j < s.len() ==> is_ws(s[j]),
        m > 0 ==> !is_ws(s[m - 1]),
    ensures
        trim_back(s) == s.take(m),
    decreases s.len() - m,
{
    if m == s.len() {
        assert(s.take(m) =~= s);
    } else {
        assert(is_ws(s[s.len() - 1]));
        lemma_trim_back_take(s.take(s.len() - 1), m);
        assert(s.take(s.len() - 1).take(m) =~= s.take(m));
    }
}

/// Decides `is_ws`.
fn is_ws_exec(b: u8) -> (r: bool)
    ensures
        r == is_ws(b),
{
    b == SP || b == 9 || b == NL || b == 11 || b == 12 || b == 13
}

/// Computes `trim`.
pub fn trim_exec(s: &Vec<u8>) -> (out: Vec<u8>)
    ensures
        out@ == trim(s@),
{
    let mut start: usize = 0;
    while start < s.len() && is_ws_exec(s[start])
        invariant
            start <= s@.len(),
            forall|j: int| 0 <= j < start ==> is_ws(s@[j]),
        decreases s@.len() - start,
    {
        start = start + 1;
    }
    let mut end: usize = s.len();
    while end > start && is_ws_exec(s[end - 1])
        invariant
            start <= end <= s@.len(),
            forall|j: int| 0 <= j < start ==> is_ws(s@[j]),
            forall|j: int| end <= j < s@.len() ==> is_ws(s@[j]),
        decreases end,
    {
        end = end - 1;
    }
    proof {
        lemma_trim_front_skip(s@, start as int);
        let f = s@.skip(start as int);
        assert(forall|j: int| end - start <= j < f.len() ==> is_ws(#[trigger] f[j]));
        if end > start {
            assert(!is_ws(s@[end - 1]));
            assert(f[end - start - 1] == s@[end - 1]);
        }
        lemma_trim_back_take(f, end - start);
        assert(f.take(end - start) =~= s@.subrange(start as int, end as int));
    }
    let mut out: Vec<u8> = Vec::new();
    let mut i: usize = start;
    while i < end
        invariant
            start <= i <= end <= s@.len(),
            out@ == s@.subrange(start as int, i as int),
        decreases end - i,
    {
        out.push(s[i]);
        proof {
            assert(s@.subrange(start as int, i as int).push(s@[i as int]) =~= s@.subrange(
                start as int,
                i + 1,
            ));
        }
        i = i + 1;
    }
    proof {
        assert(s@.subrange(start as int, start as int) =~= Seq::<u8>::empty());
    }
    out
}

/// `"<p>"`
pub open spec fn pat_para_open() -> Seq<u8> {
    seq![LT, 112u8, GT]
}

/// `"</p>"`
pub open spec fn pat_para_close() -> Seq<u8> {
    seq![LT, 47u8, 112u8, GT]
}

/// `"<ul>\n"`
pub open spec fn pat_list_open_nl() -> Seq<u8> {
    seq![LT, 117u8, 108u8, GT, NL]
}

/// `"</ul>"`
pub open spec fn pat_list_close() -> Seq<u8> {
    seq![LT, 47u8, 117u8, 108u8, GT]
}

/// `"<li>"`
pub open spec fn pat_item_open() -> Seq<u8> {
    seq![LT, 108u8, 105u8, GT]
}

/// `"</li>"`
pub open spec fn pat_item_close() -> Seq<u8> {
    seq![LT, 47u8, 108u8, 105u8, GT]
}

/// `"<br>"`
pub open spec fn pat_break() -> Seq<u8> {
    seq![LT, 98u8, 114u8, GT]
}

/// `"</pre>\n"`
pub open spec fn pat_pre_close_nl() -> Seq<u8> {
    seq![LT, 47u8, 112u8, 114u8, 101u8, GT, NL]
}

/// `"- "`, the bullet prefix.
pub open spec fn rep_bullet() -> Seq<u8> {
    seq![45u8, SP]
}

/// `"</pre>\n\n"`, a closed preformatted block with a blank line after it.
pub open spec fn rep_pre_close_blank() -> Seq<u8> {
    seq![LT, 47u8, 112u8, 114u8, 101u8, GT, NL, NL]
}

/// Step 2: the fixed-order chain of literal replacements.  Paragraph markup
/// goes first, then list markup, then explicit breaks, and last the padding
/// after preformatted blocks.
pub open spec fn apply_rules(s: Seq<u8>) -> Seq<u8> {
    let s1 = replace_all(s, pat_para_open(), Seq::empty());
    let s2 = replace_all(s1, pat_para_close(), seq![NL]);
    let s3 = replace_all(s2, pat_list_open_nl(), Seq::empty());
    let s4 = replace_all(s3, pat_list_close(), Seq::empty());
    let s5 = replace_all(s4, pat_item_open(), rep_bullet());
    let s6 = replace_all(s5, pat_item_close(), Seq::empty());
    let s7 = replace_all(s6, pat_break(), Seq::empty());
    replace_all(s7, pat_pre_close_nl(), rep_pre_close_blank())
}

/// The whole normalizer: disambiguate line breaks, strip and rewrite the
/// structural markup, trim the edges.
pub open spec fn normalize_spec(s: Seq<u8>) -> Seq<u8> {
    trim(apply_rules(space_newlines(s)))
}

/// Computes `normalize_spec`: the markup body of one article turned into the
/// plain text block of a chat message.
pub fn normalize(raw: &Vec<u8>) -> (out: Vec<u8>)
    ensures
        out@ == normalize_spec(raw@),
{
    let stage1 = space_newlines_exec(raw);

    let pat1 = crate::text::vec_of_bytes(&[LT, 112u8, GT]);
    let pat2 = crate::text::vec_of_bytes(&[LT, 47u8, 112u8, GT]);
    let pat3 = crate::text::vec_of_bytes(&[LT, 117u8, 108u8, GT, NL]);
    let pat4 = crate::text::vec_of_bytes(&[LT, 47u8, 117u8, 108u8, GT]);
    let pat5 = crate::text::vec_of_bytes(&[LT, 108u8, 105u8, GT]);
    let pat6 = crate::text::vec_of_bytes(&[LT, 47u8, 108u8, 105u8, GT]);
    let pat7 = crate::text::vec_of_bytes(&[LT, 98u8, 114u8, GT]);
    let pat8 = crate::text::vec_of_bytes(&[LT, 47u8, 112u8, 114u8, 101u8, GT, NL]);
    let nothing = crate::text::vec_of_bytes(&[]);
    let newline = crate::text::vec_of_bytes(&[NL]);
    let bullet = crate::text::vec_of_bytes(&[45u8, SP]);
    let pre_blank = crate::text::vec_of_bytes(&[LT, 47u8, 112u8, 114u8, 101u8, GT, NL, NL]);
    proof {
        assert(pat1@ =~= pat_para_open());
        assert(pat2@ =~= pat_para_close());
        assert(pat3@ =~= pat_list_open_nl());
        assert(pat4@ =~= pat_list_close());
        assert(pat5@ =~= pat_item_open());
        assert(pat6@ =~= pat_item_close());
        assert(pat7@ =~= pat_break());
        assert(pat8@ =~= pat_pre_close_nl());
        assert(nothing@ =~= Seq::<u8>::empty());
        assert(newline@ =~= seq![NL]);
        assert(bullet@ =~= rep_bullet());
        assert(pre_blank@ =~= rep_pre_close_blank());
    }

    let s1 = replace_all_exec(&stage1, &pat1, &nothing);
    let s2 = replace_all_exec(&s1, &pat2, &newline);
    let s3 = replace_all_exec(&s2, &pat3, &nothing);
    let s4 = replace_all_exec(&s3, &pat4, &nothing);
    let s5 = replace_all_exec(&s4, &pat5, &bullet);
    let s6 = replace_all_exec(&s5, &pat6, &nothing);
    let s7 = replace_all_exec(&s6, &pat7, &nothing);
    let s8 = replace_all_exec(&s7, &pat8, &pre_blank);
    trim_exec(&s8)
}

/// A body with no markup and no line breaks is only trimmed: step 1 finds no
/// newline to convert and no rule in step 2 matches a text without `<`.
pub proof fn lemma_normalize_plain_text(s: Seq<u8>)
    requires
        forall|j: int| 0 <= j < s.len() ==> s[j] != LT,
        forall|j: int| 0 <= j < s.len() ==> s[j] != NL,
    ensures
        normalize_spec(s) == trim(s),
{
    lemma_space_newlines_no_newline(s);
    lemma_replace_all_absent(s, pat_para_open(), Seq::empty());
    lemma_replace_all_absent(s, pat_para_close(), seq![NL]);
    lemma_replace_all_absent(s, pat_list_open_nl(), Seq::empty());
    lemma_replace_all_absent(s, pat_list_close(), Seq::empty());
    lemma_replace_all_absent(s, pat_item_open(), rep_bullet());
    lemma_replace_all_absent(s, pat_item_close(), Seq::empty());
    lemma_replace_all_absent(s, pat_break(), Seq::empty());
    lemma_replace_all_absent(s, pat_pre_close_nl(), rep_pre_close_blank());
}

} // verus!
