//! Splitting combined `.glsl` sources into their shader stages, and reading
//! SPIR-V bytecode as 32-bit words.
use vstd::prelude::*;

verus! {

// ---------------------------------------------------------------------------
// Characters and lines
// ---------------------------------------------------------------------------

/// Unicode `White_Space`, the characters that `str::trim` removes.
pub open spec fn is_whitespace(c: char) -> bool {
    let u = c as u32;
    (0x09 <= u <= 0x0D) || u == 0x20 || u == 0x85 || u == 0xA0 || u == 0x1680 || (0x2000 <= u
        <= 0x200A) || u == 0x2028 || u == 0x2029 || u == 0x202F || u == 0x205F || u == 0x3000
}

/// Number of leading whitespace characters.
pub open spec fn leading_ws(s: Seq<char>) -> nat
    decreases s.len(),
{
    if s.len() > 0 && is_whitespace(s[0]) {
        1 + leading_ws(s.drop_first())
    } else {
        0
    }
}

/// Number of trailing whitespace characters.
pub open spec fn trailing_ws(s: Seq<char>) -> nat
    decreases s.len(),
{
    if s.len() > 0 && is_whitespace(s.last()) {
        1 + trailing_ws(s.drop_last())
    } else {
        0
    }
}

/// `s` without its leading and trailing whitespace.
pub open spec fn spec_trim(s: Seq<char>) -> Seq<char> {
    if leading_ws(s) == s.len() {
        Seq::empty()
    } else {
        s.subrange(leading_ws(s) as int, s.len() - trailing_ws(s))
    }
}

/// Position of the first newline in `s`, or `s.len()` when there is none.
pub open spec fn newline_pos(s: Seq<char>) -> nat
    decreases s.len(),
{
    if s.len() == 0 || s[0] == '\n' {
        0
    } else {
        1 + newline_pos(s.drop_first())
    }
}

/// A line without the carriage return of a `\r\n` line ending.
pub open spec fn strip_cr(l: Seq<char>) -> Seq<char> {
    if l.len() > 0 && l.last() == '\r' {
        l.drop_last()
    } else {
        l
    }
}

/// The lines of `s` as `str::lines` gives them: split at `\n`, a `\r`
/// right before a `\n` dropped, and no empty line after a final `\n`.
pub open spec fn spec_lines(s: Seq<char>) -> Seq<Seq<char>>
    decreases s.len(),
{
    if s.len() == 0 {
        Seq::empty()
    } else {
        let p = newline_pos(s);
        if p >= s.len() {
            seq![s]
        } else {
            seq![strip_cr(s.subrange(0, p as int))] + spec_lines(s.subrange((p + 1) as int, s.len() as int))
        }
    }
}

/// The lines joined with `\n` between them.
pub open spec fn spec_join(ls: Seq<Seq<char>>) -> Seq<char>
    decreases ls.len(),
{
    if ls.len() == 0 {
        Seq::empty()
    } else if ls.len() == 1 {
        ls[0]
    } else {
        spec_join(ls.drop_last()) + seq!['\n'] + ls.last()
    }
}

/// The characters of a string slice, in order.
fn str_chars(s: &str) -> (r: Vec<char>)
    ensures
        r@ == s@,
{
    broadcast use vstd::string::axiom_spec_iter;
    let mut r: Vec<char> = Vec::new();
    for c in iter: s.chars()
        invariant
            r@.len() == iter.index(),
            forall|i: int| 0 <= i < r@.len() ==> r@[i] == iter.seq()[i],
    {
        r.push(c);
    }
    r
}

/// A string made of the given characters.
///
/// Calls `String::from_iter` on the characters; claims that the string
/// holds exactly those characters, in order.
#[verifier::external_body]
fn string_from_chars(v: &[char]) -> (r: String)
    ensures
        r@ == v@,
{
    String::from_iter(v)
}

proof fn lemma_newline_pos(s: Seq<char>, q: int)
    requires
        0 <= q <= s.len(),
        forall|j: int| 0 <= j < q ==> s[j] != '\n',
        q < s.len() ==> s[q] == '\n',
    ensures
        newline_pos(s) == q,
    decreases q,
{
    if q > 0 {
        assert(s.drop_first().len() == s.len() - 1);
        lemma_newline_pos(s.drop_first(), q - 1);
    }
}

/// The characters of each vector.
pub open spec fn lines_view(v: Seq<Vec<char>>) -> Seq<Seq<char>> {
    v.map_values(|l: Vec<char>| l@)
}

/// The `lines` of a character sequence, as owned character vectors.
fn split_lines(chars: &Vec<char>) -> (r: Vec<Vec<char>>)
    ensures
        lines_view(r@) == spec_lines(chars@),
{
    let n = chars.len();
    let mut lines: Vec<Vec<char>> = Vec::new();
    let mut pos: usize = 0;
    assert(chars@.subrange(0, n as int) =~= chars@);
    assert(lines_view(lines@) =~= Seq::<Seq<char>>::empty());
    while pos < n
        invariant
            n == chars@.len(),
            pos <= n,
            lines_view(lines@) + spec_lines(chars@.subrange(pos as int, n as int)) == spec_lines(
                chars@,
            ),
        decreases n - pos,
    {
        let mut q: usize = pos;
        while q < n && chars[q] != '\n'
            invariant
                pos <= q <= n,
                n == chars@.len(),
                forall|j: int| pos <= j < q ==> chars@[j] != '\n',
            decreases n - q,
        {
            q += 1;
        }
        let ghost rest = chars@.subrange(pos as int, n as int);
        proof {
            lemma_newline_pos(rest, q - pos);
        }
        let mut end = q;
        if q < n && end > pos && chars[end - 1] == '\r' {
            end -= 1;
        }
        let mut line: Vec<char> = Vec::new();
        let mut k: usize = pos;
        while k < end
            invariant
                pos <= k <= end <= n,
                n == chars@.len(),
                line@ == chars@.subrange(pos as int, k as int),
            decreases end - k,
        {
            line.push(chars[k]);
            proof {
                assert(chars@.subrange(pos as int, k + 1) =~= chars@.subrange(pos as int, k as int).push(
                    chars@[k as int],
                ));
            }
            k += 1;
        }
        let ghost before = lines_view(lines@);
        lines.push(line);
        proof {
            assert(lines_view(lines@) =~= before.push(line@));
            if q < n {
                assert(line@ == strip_cr(rest.subrange(0, (q - pos) as int)));
                assert(rest.subrange((q - pos) + 1, rest.len() as int) =~= chars@.subrange(
                    q + 1,
                    n as int,
                ));
                assert(spec_lines(rest) == seq![line@] + spec_lines(chars@.subrange(q + 1, n as int)));
                assert(before + spec_lines(rest) =~= before.push(line@) + spec_lines(
                    chars@.subrange(q + 1, n as int),
                ));
            } else {
                assert(line@ =~= rest);
                assert(spec_lines(rest) == seq![rest]);
                assert(chars@.subrange(n as int, n as int) =~= Seq::<char>::empty());
                assert(before + spec_lines(rest) =~= before.push(line@) + spec_lines(
                    chars@.subrange(n as int, n as int),
                ));
            }
        }
        pos = if q < n {
            q + 1
        } else {
            n
        };
    }
    proof {
        assert(chars@.subrange(n as int, n as int) =~= Seq::<char>::empty());
        assert(lines_view(lines@) + Seq::<Seq<char>>::empty() =~= lines_view(lines@));
    }
    lines
}


fn is_whitespace_exec(c: char) -> (r: bool)
    ensures
        r == is_whitespace(c),
{
    let u = c as u32;
    (0x09 <= u && u <= 0x0D) || u == 0x20 || u == 0x85 || u == 0xA0 || u == 0x1680 || (0x2000 <= u
        && u <= 0x200A) || u == 0x2028 || u == 0x2029 || u == 0x202F || u == 0x205F || u == 0x3000
}

proof fn lemma_leading_ws(s: Seq<char>, a: int)
    requires
        0 <= a <= s.len(),
        forall|j: int| 0 <= j < a ==> is_whitespace(#[trigger] s[j]),
        a < s.len() ==> !is_whitespace(s[a]),
    ensures
        leading_ws(s) == a,
    decreases a,
{
    if a > 0 {
        assert forall|j: int| 0 <= j < a - 1 implies is_whitespace(#[trigger] s.drop_first()[j]) by {
            assert(s.drop_first()[j] == s[j + 1]);
        }
        lemma_leading_ws(s.drop_first(), a - 1);
    }
}

proof fn lemma_trailing_ws(s: Seq<char>, b: int)
    requires
        0 <= b <= s.len(),
        forall|j: int| s.len() - b <= j < s.len() ==> is_whitespace(#[trigger] s[j]),
        b < s.len() ==> !is_whitespace(s[s.len() - b - 1]),
    ensures
        trailing_ws(s) == b,
    decreases b,
{
    if b > 0 {
        let t = s.drop_last();
        assert forall|j: int| t.len() - (b - 1) <= j < t.len() implies is_whitespace(#[trigger] t[j]) by {
            assert(t[j] == s[j]);
        }
        lemma_trailing_ws(t, b - 1);
    }
}

/// Whether the line, trimmed, is exactly `target`.
fn trimmed_is(line: &Vec<char>, target: &Vec<char>) -> (r: bool)
    ensures
        r == (spec_trim(line@) == target@),
{
    let n = line.len();
    let mut a: usize = 0;
    while a < n && is_whitespace_exec(line[a])
        invariant
            a <= n,
            n == line@.len(),
            forall|j: int| 0 <= j < a ==> is_whitespace(#[trigger] line@[j]),
        decreases n - a,
    {
        a += 1;
    }
    proof {
        lemma_leading_ws(line@, a as int);
    }
    if a == n {
        assert(spec_trim(line@) == Seq::<char>::empty());
        assert(target@.len() == 0 ==> target@ =~= Seq::<char>::empty());
        return target.len() == 0;
    }
    let mut b: usize = 0;
    while b < n - a && is_whitespace_exec(line[n - 1 - b])
        invariant
            a < n,
            b <= n - a,
            n == line@.len(),
            forall|j: int| n - b <= j < n ==> is_whitespace(#[trigger] line@[j]),
        decreases n - a - b,
    {
        b += 1;
    }
    proof {
        assert(!is_whitespace(line@[a as int]));
        lemma_trailing_ws(line@, b as int);
    }
    let len = n - a - b;
    assert(spec_trim(line@) == line@.subrange(a as int, (n - b) as int));
    if len != target.len() {
        assert(spec_trim(line@).len() != target@.len());
        return false;
    }
    let mut k: usize = 0;
    while k < len
        invariant
            k <= len,
            len == target@.len(),
            a + len + b == n,
            n == line@.len(),
            forall|j: int| 0 <= j < k ==> line@[a + j] == target@[j],
            spec_trim(line@) == line@.subrange(a as int, (n - b) as int),
        decreases len - k,
    {
        if line[a + k] != target[k] {
            assert(spec_trim(line@)[k as int] != target@[k as int]);
            return false;
        }
        k += 1;
    }
    assert(spec_trim(line@) =~= target@);
    true
}

/// The lines joined with `\n` between them.
fn join_lines(ls: &Vec<Vec<char>>) -> (r: Vec<char>)
    ensures
        r@ == spec_join(lines_view(ls@)),
{
    let mut out: Vec<char> = Vec::new();
    let mut i: usize = 0;
    while i < ls.len()
        invariant
            i <= ls@.len(),
            out@ == spec_join(lines_view(ls@).subrange(0, i as int)),
        decreases ls@.len() - i,
    {
        let ghost prefix = lines_view(ls@).subrange(0, i as int);
        if i > 0 {
            out.push('\n');
        }
        let mut k: usize = 0;
        let ghost start = out@;
        while k < ls[i].len()
            invariant
                i < ls@.len(),
                k <= ls@[i as int]@.len(),
                out@ == start + ls@[i as int]@.subrange(0, k as int),
            decreases ls@[i as int]@.len() - k,
        {
            out.push(ls[i][k]);
            proof {
                assert(ls@[i as int]@.subrange(0, k + 1) =~= ls@[i as int]@.subrange(0, k as int).push(
                    ls@[i as int]@[k as int],
                ));
            }
            k += 1;
        }
        proof {
            let next = lines_view(ls@).subrange(0, i + 1);
            assert(ls@[i as int]@.subrange(0, k as int) =~= ls@[i as int]@);
            assert(next.drop_last() =~= prefix);
            assert(next.last() == ls@[i as int]@);
            if i == 0 {
                assert(out@ =~= spec_join(next));
            } else {
                assert(out@ =~= spec_join(next));
            }
        }
        i += 1;
    }
    assert(lines_view(ls@).subrange(0, ls@.len() as int) =~= lines_view(ls@));
    out
}

// ---------------------------------------------------------------------------
// Stage splitting
// ---------------------------------------------------------------------------

/// The stage that the lines of a combined source currently belong to.
#[derive(Debug, Clone, Copy, PartialEq, Eq, Structural)]
pub enum GlslStage {
    /// Before the first `#type` marker: lines are dropped.
    Preamble,
    /// After `#type vertex`.
    Vertex,
    /// After `#type fragment`.
    Fragment,
}

/// The vertex-stage and fragment-stage lines of `lines`, when the lines
/// before them belong to `stage`. A line that reads `#type vertex` or
/// `#type fragment` (ignoring surrounding whitespace) switches the stage and
/// belongs to none.
pub open spec fn classify_lines(lines: Seq<Seq<char>>, stage: GlslStage) -> (Seq<Seq<char>>, Seq<Seq<char>>)
    decreases lines.len(),
{
    if lines.len() == 0 {
        (Seq::empty(), Seq::empty())
    } else {
        let l = lines[0];
        let rest = lines.drop_first();
        if spec_trim(l) == "#type vertex"@ {
            classify_lines(rest, GlslStage::Vertex)
        } else if spec_trim(l) == "#type fragment"@ {
            classify_lines(rest, GlslStage::Fragment)
        } else {
            let (v, f) = classify_lines(rest, stage);
            match stage {
                GlslStage::Vertex => (seq![l] + v, f),
                GlslStage::Fragment => (v, seq![l] + f),
                GlslStage::Preamble => (v, f),
            }
        }
    }
}

/// Why a combined source could not be split.
#[derive(Debug, Clone, Copy, PartialEq, Eq, Structural)]
pub enum GlslSourceError {
    /// No line belongs to the vertex stage.
    MissingVertex,
    /// No line belongs to the fragment stage.
    MissingFragment,
    /// No line follows the `#type compute` marker.
    EmptyCompute,
}

/// What splitting a combined vertex + fragment source gives: the two
/// stages' lines joined with `\n`, or the missing stage.
pub open spec fn spec_split_glsl(source: Seq<char>) -> Result<(Seq<char>, Seq<char>), GlslSourceError> {
    let (v, f) = classify_lines(spec_lines(source), GlslStage::Preamble);
    if v.len() == 0 {
        Err(GlslSourceError::MissingVertex)
    } else if f.len() == 0 {
        Err(GlslSourceError::MissingFragment)
    } else {
        Ok((spec_join(v), spec_join(f)))
    }
}

/// Split a combined source with `#type vertex` and `#type fragment`
/// sections into the vertex and fragment sources.
pub fn split_glsl_source(source: &str) -> (r: Result<(String, String), GlslSourceError>)
    ensures
        match (r, spec_split_glsl(source@)) {
            (Ok((v, f)), Ok((sv, sf))) => v@ == sv && f@ == sf,
            (Err(e), Err(se)) => e == se,
            _ => false,
        },
{
    let chars = str_chars(source);
    let lines = split_lines(&chars);
    let vertex_marker = str_chars("#type vertex");
    let fragment_marker = str_chars("#type fragment");
    let ghost all = lines_view(lines@);
    let mut vert: Vec<Vec<char>> = Vec::new();
    let mut frag: Vec<Vec<char>> = Vec::new();
    let mut stage = GlslStage::Preamble;
    let mut i: usize = 0;
    assert(all.subrange(0, all.len() as int) =~= all);
    assert(lines_view(vert@) =~= Seq::<Seq<char>>::empty());
    assert(lines_view(frag@) =~= Seq::<Seq<char>>::empty());
    while i < lines.len()
        invariant
            all == lines_view(lines@),
            i <= lines@.len(),
            vertex_marker@ == "#type vertex"@,
            fragment_marker@ == "#type fragment"@,
            ({
                let (v, f) = classify_lines(all.subrange(i as int, all.len() as int), stage);
                let (tv, tf) = classify_lines(all, GlslStage::Preamble);
                lines_view(vert@) + v == tv && lines_view(frag@) + f == tf
            }),
        decreases lines@.len() - i,
    {
        let ghost rest = all.subrange(i as int, all.len() as int);
        let ghost vb = lines_view(vert@);
        let ghost fb = lines_view(frag@);
        assert(rest[0] == lines@[i as int]@);
        assert(rest.drop_first() =~= all.subrange(i + 1, all.len() as int));
        let line = &lines[i];
        if trimmed_is(line, &vertex_marker) {
            stage = GlslStage::Vertex;
        } else if trimmed_is(line, &fragment_marker) {
            stage = GlslStage::Fragment;
        } else {
            match stage {
                GlslStage::Vertex => {
                    vert.push(copy_line(line));
                    proof {
                        assert(lines_view(vert@) =~= vb.push(rest[0]));
                        assert(vb.push(rest[0]) + classify_lines(rest.drop_first(), stage).0 =~= vb + (
                        seq![rest[0]] + classify_lines(rest.drop_first(), stage).0));
                    }
                },
                GlslStage::Fragment => {
                    frag.push(copy_line(line));
                    proof {
                        assert(lines_view(frag@) =~= fb.push(rest[0]));
                        assert(fb.push(rest[0]) + classify_lines(rest.drop_first(), stage).1 =~= fb + (
                        seq![rest[0]] + classify_lines(rest.drop_first(), stage).1));
                    }
                },
                GlslStage::Preamble => {},
            }
        }
        i += 1;
    }
    proof {
        assert(all.subrange(i as int, all.len() as int) =~= Seq::<Seq<char>>::empty());
        let (tv, tf) = classify_lines(all, GlslStage::Preamble);
        assert(lines_view(vert@) + Seq::<Seq<char>>::empty() =~= lines_view(vert@));
        assert(lines_view(frag@) + Seq::<Seq<char>>::empty() =~= lines_view(frag@));
        assert(lines_view(vert@) == tv);
        assert(lines_view(frag@) == tf);
    }
    if vert.len() == 0 {
        return Err(GlslSourceError::MissingVertex);
    }
    if frag.len() == 0 {
        return Err(GlslSourceError::MissingFragment);
    }
    let v = join_lines(&vert);
    let f = join_lines(&frag);
    Ok((string_from_chars(v.as_slice()), string_from_chars(f.as_slice())))
}

/// A copy of a line.
fn copy_line(line: &Vec<char>) -> (r: Vec<char>)
    ensures
        r@ == line@,
{
    let mut r: Vec<char> = Vec::new();
    let mut k: usize = 0;
    while k < line.len()
        invariant
            k <= line@.len(),
            r@ == line@.subrange(0, k as int),
        decreases line@.len() - k,
    {
        r.push(line[k]);
        proof {
            assert(line@.subrange(0, k + 1) =~= line@.subrange(0, k as int).push(line@[k as int]));
        }
        k += 1;
    }
    assert(line@.subrange(0, k as int) =~= line@);
    r
}


/// The lines that follow a `#type compute` marker (marker lines excluded),
/// when the lines before `lines` already passed one (`in_compute`).
pub open spec fn compute_lines(lines: Seq<Seq<char>>, in_compute: bool) -> Seq<Seq<char>>
    decreases lines.len(),
{
    if lines.len() == 0 {
        Seq::empty()
    } else {
        let l = lines[0];
        let rest = lines.drop_first();
        if spec_trim(l) == "#type compute"@ {
            compute_lines(rest, true)
        } else if in_compute {
            seq![l] + compute_lines(rest, true)
        } else {
            compute_lines(rest, false)
        }
    }
}

/// What extracting the compute stage of a source gives: its lines joined
/// with `\n`, or an error when there are none.
pub open spec fn spec_extract_compute(source: Seq<char>) -> Result<Seq<char>, GlslSourceError> {
    let c = compute_lines(spec_lines(source), false);
    if c.len() == 0 {
        Err(GlslSourceError::EmptyCompute)
    } else {
        Ok(spec_join(c))
    }
}

/// The compute shader source that follows the `#type compute` marker.
pub fn extract_compute_source(source: &str) -> (r: Result<String, GlslSourceError>)
    ensures
        match (r, spec_extract_compute(source@)) {
            (Ok(c), Ok(sc)) => c@ == sc,
            (Err(e), Err(se)) => e == se,
            _ => false,
        },
{
    let chars = str_chars(source);
    let lines = split_lines(&chars);
    let marker = str_chars("#type compute");
    let ghost all = lines_view(lines@);
    let mut comp: Vec<Vec<char>> = Vec::new();
    let mut in_compute = false;
    let mut i: usize = 0;
    assert(all.subrange(0, all.len() as int) =~= all);
    assert(lines_view(comp@) =~= Seq::<Seq<char>>::empty());
    while i < lines.len()
        invariant
            all == lines_view(lines@),
            i <= lines@.len(),
            marker@ == "#type compute"@,
            lines_view(comp@) + compute_lines(all.subrange(i as int, all.len() as int), in_compute)
                == compute_lines(all, false),
        decreases lines@.len() - i,
    {
        let ghost rest = all.subrange(i as int, all.len() as int);
        let ghost cb = lines_view(comp@);
        assert(rest[0] == lines@[i as int]@);
        assert(rest.drop_first() =~= all.subrange(i + 1, all.len() as int));
        let line = &lines[i];
        if trimmed_is(line, &marker) {
            in_compute = true;
        } else if in_compute {
            comp.push(copy_line(line));
            proof {
                assert(lines_view(comp@) =~= cb.push(rest[0]));
                assert(cb.push(rest[0]) + compute_lines(rest.drop_first(), true) =~= cb + (seq![rest[0]]
                    + compute_lines(rest.drop_first(), true)));
            }
        }
        i += 1;
    }
    proof {
        assert(all.subrange(i as int, all.len() as int) =~= Seq::<Seq<char>>::empty());
        assert(lines_view(comp@) + Seq::<Seq<char>>::empty() =~= lines_view(comp@));
    }
    if comp.len() == 0 {
        return Err(GlslSourceError::EmptyCompute);
    }
    let c = join_lines(&comp);
    Ok(string_from_chars(c.as_slice()))
}

// ---------------------------------------------------------------------------
// SPIR-V words
// ---------------------------------------------------------------------------

/// The little-endian 32-bit word made of four bytes.
pub open spec fn le_word(b0: u8, b1: u8, b2: u8, b3: u8) -> int {
    b0 + 256 * b1 + 65536 * b2 + 16777216 * b3
}

/// SPIR-V bytecode as the stream of little-endian 32-bit words that Vulkan
/// takes; trailing bytes that do not make a whole word are ignored.
pub fn spirv_words(bytes: &[u8]) -> (r: Vec<u32>)
    ensures
        r@.len() == bytes@.len() / 4,
        forall|i: int|
            0 <= i < r@.len() ==> #[trigger] r@[i] == le_word(
                bytes@[4 * i],
                bytes@[4 * i + 1],
                bytes@[4 * i + 2],
                bytes@[4 * i + 3],
            ),
{
    let mut words: Vec<u32> = Vec::new();
    let mut pos: usize = 0;
    while bytes.len() - pos >= 4
        invariant
            pos <= bytes@.len(),
            pos == 4 * words@.len(),
            forall|i: int|
                0 <= i < words@.len() ==> #[trigger] words@[i] == le_word(
                    bytes@[4 * i],
                    bytes@[4 * i + 1],
                    bytes@[4 * i + 2],
                    bytes@[4 * i + 3],
                ),
        decreases bytes@.len() - pos,
    {
        let w: u32 = bytes[pos] as u32 + 256 * (bytes[pos + 1] as u32) + 65536 * (bytes[pos + 2] as u32)
            + 16777216 * (bytes[pos + 3] as u32);
        words.push(w);
        pos += 4;
    }
    words
}

} // verus!
