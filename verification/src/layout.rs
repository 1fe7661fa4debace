use vstd::prelude::*;

verus! {

/// The filler character of padding and of empty rows.
pub const BLANK: char = ' ';

/// `n` filler characters.
pub open spec fn spec_blanks(n: nat) -> Seq<char> {
    Seq::new(n, |i: int| BLANK)
}

/// The number of filler characters that complete the last row of a line of
/// `len` characters on a grid `w` wide. An empty line takes one whole row; a
/// line that ends on the row boundary takes none.
pub open spec fn spec_pad(len: nat, w: nat) -> nat
    recommends
        w > 0,
{
    if len == 0 {
        w
    } else if len % w == 0 {
        0
    } else {
        (w - len % w) as nat
    }
}

/// A line cut into rows of `w` cells, row after row: its characters, then the
/// padding of its last row.
pub open spec fn spec_rows(line: Seq<char>, w: nat) -> Seq<char> {
    line + spec_blanks(spec_pad(line.len(), w))
}

/// The rows of all `lines`, in order.
pub open spec fn spec_flow(lines: Seq<Seq<char>>, w: nat) -> Seq<char>
    decreases lines.len(),
{
    if lines.len() == 0 {
        Seq::empty()
    } else {
        spec_flow(lines.drop_last(), w) + spec_rows(lines.last(), w)
    }
}

/// `s` cut or filled to exactly `n` characters.
pub open spec fn spec_fit(s: Seq<char>, n: nat) -> Seq<char> {
    Seq::new(
        n,
        |i: int|
            if i < s.len() {
                s[i]
            } else {
                BLANK
            },
    )
}

/// The first `n` characters of `s`, or all of it where it has fewer.
pub open spec fn spec_clip(s: Seq<char>, n: nat) -> Seq<char> {
    if s.len() <= n {
        s
    } else {
        s.take(n as int)
    }
}

/// The index of the first document line shown: the distance of `pos` from
/// the end, less `h - 1` where that does not go below zero, and unchanged
/// where it would.
pub open spec fn spec_skip(line_count: nat, pos: nat, h: nat) -> nat {
    let raw: nat = if pos <= line_count {
        (line_count - pos) as nat
    } else {
        0
    };
    let room: nat = if h == 0 {
        0
    } else {
        (h - 1) as nat
    };
    if raw >= room {
        (raw - room) as nat
    } else {
        raw
    }
}

/// The lines from line `skip` on; none where `skip` is past the end.
pub open spec fn spec_from(lines: Seq<Seq<char>>, skip: nat) -> Seq<Seq<char>> {
    if skip <= lines.len() {
        lines.subrange(skip as int, lines.len() as int)
    } else {
        Seq::empty()
    }
}

/// The characters of a grid `w` wide and `h` high, row-major, that shows
/// `lines` from line `skip` on.
pub open spec fn spec_grid_chars(lines: Seq<Seq<char>>, skip: nat, w: nat, h: nat) -> Seq<char> {
    spec_fit(spec_flow(spec_from(lines, skip), w), w * h)
}

/// The text of a document held as vectors of characters.
pub open spec fn spec_text(lines: Seq<Vec<char>>) -> Seq<Seq<char>> {
    Seq::new(lines.len(), |i: int| lines[i]@)
}

/// A line fills whole rows, at least one, and no row more than its
/// characters need.
pub proof fn lemma_rows_len(line: Seq<char>, w: nat)
    requires
        w > 0,
    ensures
        spec_rows(line, w).len() % w == 0,
        spec_rows(line, w).len() >= w,
        spec_rows(line, w).len() >= line.len(),
        spec_rows(line, w).len() < line.len() + w || line.len() == 0,
{
    let len = line.len();
    if len != 0 && len % w != 0 {
        assert((len + (w - len % w)) % (w as int) == 0) by (nonlinear_arith)
            requires
                w > 0,
                len % w != 0,
        ;
        assert(len >= w || len % w == len) by (nonlinear_arith)
            requires
                w > 0,
        ;
    } else if len != 0 {
        assert(len >= w) by (nonlinear_arith)
            requires
                w > 0,
                len > 0,
                len % w == 0,
        ;
    } else {
        assert(w % w == 0) by (nonlinear_arith)
            requires
                w > 0,
        ;
    }
}

/// Every line starts at the left edge of a row: the flow of any lines fills
/// whole rows, at least one for each line.
pub proof fn lemma_flow_whole_rows(lines: Seq<Seq<char>>, w: nat)
    requires
        w > 0,
    ensures
        spec_flow(lines, w).len() % w == 0,
        spec_flow(lines, w).len() >= lines.len() * w,
    decreases lines.len(),
{
    if lines.len() > 0 {
        lemma_flow_whole_rows(lines.drop_last(), w);
        lemma_rows_len(lines.last(), w);
        let a = spec_flow(lines.drop_last(), w).len();
        let b = spec_rows(lines.last(), w).len();
        vstd::arithmetic::div_mod::lemma_mod_adds(a as int, b as int, w as int);
        assert(a + b >= lines.len() * w) by (nonlinear_arith)
            requires
                a >= (lines.len() - 1) * w,
                b >= w,
        ;
    } else {
        assert(0nat % w == 0) by (nonlinear_arith)
            requires
                w > 0,
        ;
        assert(lines.len() * w == 0) by (nonlinear_arith)
            requires
                lines.len() == 0,
        ;
    }
}

/// The flow of a stretch of lines is the flow of its first part followed by
/// the flow of the rest.
pub proof fn lemma_flow_split(lines: Seq<Seq<char>>, a: int, i: int, n: int, w: nat)
    requires
        0 <= a <= i <= n <= lines.len(),
    ensures
        spec_flow(lines.subrange(a, n), w) == spec_flow(lines.subrange(a, i), w) + spec_flow(
            lines.subrange(i, n),
            w,
        ),
    decreases n - i,
{
    if n == i {
        assert(lines.subrange(i, n) =~= Seq::empty());
        assert(spec_flow(lines.subrange(a, i), w) + Seq::<char>::empty() =~= spec_flow(
            lines.subrange(a, i),
            w,
        ));
    } else {
        lemma_flow_split(lines, a, i, n - 1, w);
        assert(lines.subrange(a, n).drop_last() =~= lines.subrange(a, n - 1));
        assert(lines.subrange(i, n).drop_last() =~= lines.subrange(i, n - 1));
        let last = spec_rows(lines[n - 1], w);
        assert((spec_flow(lines.subrange(a, i), w) + spec_flow(lines.subrange(i, n - 1), w))
            + last =~= spec_flow(lines.subrange(a, i), w) + (spec_flow(
            lines.subrange(i, n - 1),
            w,
        ) + last));
    }
}

/// What lies beyond the first `n` characters does not show in the clip.
pub proof fn lemma_clip_extend(a: Seq<char>, b: Seq<char>, n: nat)
    requires
        a.len() >= n,
    ensures
        spec_clip(a + b, n) == spec_clip(a, n),
{
    assert(spec_clip(a + b, n) =~= spec_clip(a, n));
}

/// A document without lines shows as a grid of filler characters only.
pub proof fn lemma_empty_document_chars(w: nat, h: nat)
    ensures
        spec_grid_chars(Seq::empty(), 0, w, h) == spec_blanks(w * h),
{
    assert(spec_from(Seq::empty(), 0) =~= Seq::empty());
    assert(spec_grid_chars(Seq::empty(), 0, w, h) =~= spec_blanks(w * h));
}

/// A line exactly as long as the grid is wide takes one row and no padding.
pub proof fn lemma_line_of_grid_width(line: Seq<char>, w: nat)
    requires
        w > 0,
        line.len() == w,
    ensures
        spec_rows(line, w) == line,
        spec_pad(line.len(), w) == 0,
{
    assert(w % w == 0) by (nonlinear_arith)
        requires
            w > 0,
    ;
    assert(spec_rows(line, w) =~= line);
}

/// A line one character longer than the grid is wide takes two rows: the
/// second holds its last character and then `w - 1` filler characters.
pub proof fn lemma_line_one_over_grid_width(line: Seq<char>, w: nat)
    requires
        w > 0,
        line.len() == w + 1,
    ensures
        spec_rows(line, w).len() == 2 * w,
        spec_pad(line.len(), w) == w - 1,
        spec_rows(line, w).subrange(0, w as int) == line.take(w as int),
        spec_rows(line, w).subrange(w as int, 2 * w as int) == seq![line[w as int]] + spec_blanks(
            (w - 1) as nat,
        ),
{
    if w == 1 {
        assert(2nat % 1 == 0);
    } else {
        assert((w + 1) as nat % w == 1) by (nonlinear_arith)
            requires
                w > 1,
        ;
    }
    assert(spec_rows(line, w).subrange(0, w as int) =~= line.take(w as int));
    assert(spec_rows(line, w).subrange(w as int, 2 * w as int) =~= seq![line[w as int]] + spec_blanks(
        (w - 1) as nat,
    ));
}

/// The first document line to show for scroll position `pos`.
pub fn first_line(line_count: usize, pos: usize, h: u16) -> (skip: usize)
    ensures
        skip == spec_skip(line_count as nat, pos as nat, h as nat),
        skip <= line_count,
{
    let raw: usize = if pos <= line_count {
        line_count - pos
    } else {
        0
    };
    let room: usize = if h == 0 {
        0
    } else {
        (h - 1) as usize
    };
    if raw >= room {
        raw - room
    } else {
        raw
    }
}

/// Lays `lines` out, from line `skip` on, on a grid `w` wide and `h` high and
/// returns the grid's characters row by row. Lines wrap hard at the width;
/// what does not fit is cut, what is left over is filled.
pub fn wrap_lines(lines: &Vec<Vec<char>>, skip: usize, w: u16, h: u16) -> (out: Vec<char>)
    ensures
        out@ == spec_grid_chars(spec_text(lines@), skip as nat, w as nat, h as nat),
        out@.len() == w * h,
{
    assert(w * h <= 65535 * 65535) by (nonlinear_arith)
        requires
            w <= 65535,
            h <= 65535,
    ;
    let width: usize = w as usize;
    let total: usize = width * (h as usize);
    let n: usize = lines.len();
    let ghost text = spec_text(lines@);
    let ghost full = spec_flow(spec_from(text, skip as nat), w as nat);
    let skip: usize = if skip <= n {
        skip
    } else {
        n
    };
    proof {
        assert(text.subrange(n as int, n as int) =~= Seq::empty());
    }
    let mut out: Vec<char> = Vec::new();
    let mut li: usize = skip;
    proof {
        assert(text.subrange(skip as int, skip as int) =~= Seq::empty());
    }
    while li < n && out.len() < total
        invariant
            skip <= li <= n,
            n == lines.len(),
            text == spec_text(lines@),
            width == w,
            total == w * h,
            out@ == spec_clip(spec_flow(text.subrange(skip as int, li as int), w as nat), total as nat),
        decreases n - li,
    {
        let ghost before = spec_flow(text.subrange(skip as int, li as int), w as nat);
        let line = &lines[li];
        let len: usize = line.len();
        assert(line@ == text[li as int]);
        assert(w > 0) by (nonlinear_arith)
            requires
                total == w * h,
                total > 0,
        ;
        let mut ci: usize = 0;
        proof {
            assert(before + line@.take(0) =~= before);
        }
        while ci < len && out.len() < total
            invariant
                ci <= len,
                len == line@.len(),
                out@ == spec_clip(before + line@.take(ci as int), total as nat),
            decreases len - ci,
        {
            proof {
                assert(before + line@.take(ci as int + 1) =~= (before + line@.take(
                    ci as int,
                )).push(line@[ci as int]));
            }
            out.push(line[ci]);
            ci += 1;
        }
        let pad: usize = if len == 0 {
            width
        } else if len % width == 0 {
            0
        } else {
            width - len % width
        };
        assert(pad == spec_pad(len as nat, w as nat));
        let ghost rows = spec_rows(line@, w as nat);
        let mut k: usize = 0;
        proof {
            if ci < len {
                let shown = before + line@.take(ci as int);
                let rest = line@.skip(ci as int) + spec_blanks(pad as nat);
                assert(shown + rest =~= before + rows);
                lemma_clip_extend(shown, rest, total as nat);
            } else {
                assert(line@.take(ci as int) =~= line@);
                assert(line@ + spec_blanks(0) =~= line@);
            }
        }
        while k < pad && out.len() < total
            invariant
                k <= pad,
                pad == spec_pad(line@.len(), w as nat),
                rows == spec_rows(line@, w as nat),
                out@ == spec_clip(before + rows, total as nat) || (ci == len && out@ == spec_clip(
                    before + (line@ + spec_blanks(k as nat)),
                    total as nat,
                )),
                out@ == spec_clip(before + rows, total as nat) ==> out.len() >= total || k == pad,
            decreases pad - k,
        {
            proof {
                assert(before + (line@ + spec_blanks(k as nat + 1)) =~= (before + (line@
                    + spec_blanks(k as nat))).push(BLANK));
            }
            out.push(BLANK);
            k += 1;
            proof {
                if k == pad {
                    assert(line@ + spec_blanks(k as nat) =~= rows);
                }
            }
        }
        proof {
            if out@ != spec_clip(before + rows, total as nat) {
                if k == pad {
                    assert(line@ + spec_blanks(k as nat) =~= rows);
                } else {
                    let shown = before + (line@ + spec_blanks(k as nat));
                    let rest = spec_blanks((pad - k) as nat);
                    assert(shown + rest =~= before + rows);
                    lemma_clip_extend(shown, rest, total as nat);
                }
            }
            assert(text.subrange(skip as int, li as int + 1).drop_last() =~= text.subrange(
                skip as int,
                li as int,
            ));
        }
        li += 1;
    }
    proof {
        let shown = spec_flow(text.subrange(skip as int, li as int), w as nat);
        lemma_flow_split(text, skip as int, li as int, n as int, w as nat);
        if li < n {
            lemma_clip_extend(shown, spec_flow(text.subrange(li as int, n as int), w as nat), total as nat);
        } else {
            assert(full == shown);
        }
        assert(out@ == spec_clip(full, total as nat));
    }
    let ghost shown_len = out@.len();
    while out.len() < total
        invariant
            shown_len <= out@.len() <= total,
            out@.take(shown_len as int) == spec_clip(full, total as nat),
            shown_len == spec_clip(full, total as nat).len(),
            forall|i: int| shown_len <= i < out@.len() ==> out@[i] == BLANK,
        decreases total - out.len(),
    {
        let ghost prev = out@;
        out.push(BLANK);
        proof {
            assert(out@.take(shown_len as int) =~= prev.take(shown_len as int));
        }
    }
    proof {
        let want = spec_fit(full, total as nat);
        assert(out@.len() == want.len());
        assert forall|i: int| 0 <= i < out@.len() implies out@[i] == want[i] by {
            if i < shown_len {
                assert(out@[i] == out@.take(shown_len as int)[i]);
            }
        }
        assert(out@ =~= want);
    }
    out
}

} // verus!
