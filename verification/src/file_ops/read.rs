//! The read tool: renders a window of a text file's lines, each prefixed
//! with a five-digit, one-based line number, under a line-length cap, a
//! line-count limit and an output byte cap. A negative offset asks for the
//! tail of the file.

use vstd::prelude::*;
use crate::text::chars_of_str;
use crate::text::spec_split;
use crate::text::split_chars;
use crate::text::string_of_chars;
use crate::text::subrange_chars;
use crate::text::push_chars;
use crate::text::spec_zero_padded;
use crate::text::zero_padded_decimal;
use crate::text::spec_utf8_len_seq;
use crate::text::utf8_len_chars;
use crate::text::lemma_split_len_pos;

verus! {

/// The default and largest line window of one read.
pub const DEFAULT_LIMIT: u32 = 2000;

/// Characters kept of one line before it is cut with an ellipsis.
pub const MAX_LINE_CHARS: usize = 2000;

/// Bytes of rendered output after which the result is cut.
pub const MAX_OUTPUT_BYTES: usize = 51200;

/// Arguments of one read: a project-relative path, an optional line offset
/// (negative: lines from the end), an optional line limit.
pub struct ReadParams {
    pub path: String,
    pub offset: Option<i64>,
    pub limit: Option<u32>,
}

/// The outcome of one read: the rendered window, the file's total line
/// count, and whether anything was cut.
pub struct ReadResult {
    pub content: String,
    pub total_lines: u32,
    pub truncated: bool,
}

/// One trailing carriage return removed, as a line that ended in `\r\n`
/// loses both.
pub open spec fn spec_strip_cr(s: Seq<char>) -> Seq<char> {
    if s.len() > 0 && s.last() == '\r' {
        s.drop_last()
    } else {
        s
    }
}

/// The lines of a text: `\n`-separated, a trailing `\r` stripped from every
/// line that a `\n` ended; a final newline does not open an empty last line.
pub open spec fn spec_lines(content: Seq<char>) -> Seq<Seq<char>> {
    let parts = spec_split(content, '\n');
    if parts.last().len() == 0 {
        Seq::new((parts.len() - 1) as nat, |i: int| spec_strip_cr(parts[i]))
    } else {
        Seq::new((parts.len() - 1) as nat, |i: int| spec_strip_cr(parts[i])).push(parts.last())
    }
}

/// A line as displayed: cut to `MAX_LINE_CHARS` characters with an ellipsis
/// when longer.
pub open spec fn spec_display_line(line: Seq<char>) -> Seq<char> {
    if line.len() > MAX_LINE_CHARS {
        line.subrange(0, MAX_LINE_CHARS as int) + seq!['.', '.', '.']
    } else {
        line
    }
}

/// One rendered line: the one-based line number, zero-padded to five digits,
/// a separator, and the displayed line.
pub open spec fn spec_numbered(number: nat, display: Seq<char>) -> Seq<char> {
    spec_zero_padded(number, 5) + seq!['|', ' '] + display
}

/// Renders lines starting at zero-based index `idx`, collecting at most
/// `limit` lines into `acc`, stopping at the output byte cap. Returns the
/// rendered text and the truncation flag.
pub open spec fn spec_render(
    lines: Seq<Seq<char>>,
    idx: nat,
    limit: nat,
    acc: Seq<char>,
    trunc: bool,
) -> (Seq<char>, bool)
    decreases lines.len(),
{
    if lines.len() == 0 {
        (acc, trunc)
    } else if limit == 0 {
        (acc, true)
    } else {
        let line = lines.first();
        let display = spec_display_line(line);
        let formatted = spec_numbered(idx + 1, display);
        let add = spec_utf8_len_seq(formatted) + if acc.len() == 0 {
            0nat
        } else {
            1nat
        };
        if spec_utf8_len_seq(acc) + add > MAX_OUTPUT_BYTES {
            (acc, true)
        } else {
            spec_render(
                lines.drop_first(),
                idx + 1,
                (limit - 1) as nat,
                if acc.len() == 0 {
                    formatted
                } else {
                    acc + seq!['\n'] + formatted
                },
                trunc || line.len() > MAX_LINE_CHARS,
            )
        }
    }
}

/// The effective line limit: the given one, clamped to the default ceiling.
pub open spec fn spec_clamp_limit(limit: Option<u32>) -> nat {
    match limit {
        Some(l) => if l < DEFAULT_LIMIT {
            l as nat
        } else {
            DEFAULT_LIMIT as nat
        },
        None => DEFAULT_LIMIT as nat,
    }
}

/// The first collected line index for a non-negative offset: offsets beyond
/// `u32` fall back to zero, and the window starts no later than the end.
pub open spec fn spec_forward_start(len: nat, offset: i64) -> nat {
    let off = if 0 <= offset <= u32::MAX {
        offset as nat
    } else {
        0nat
    };
    if off <= len {
        off
    } else {
        len
    }
}

/// The first collected line index for a negative offset: the last `-offset`
/// lines; the smallest offset asks for the whole file.
pub open spec fn spec_tail_start(len: nat, offset: i64) -> nat {
    let tail = if offset == i64::MIN {
        u64::MAX as nat
    } else {
        (-offset) as nat
    };
    if tail <= len {
        (len - tail) as nat
    } else {
        0nat
    }
}

/// The total line count as reported: saturated at `u32::MAX`.
pub open spec fn spec_total_lines(len: nat) -> u32 {
    if len <= u32::MAX {
        len as u32
    } else {
        u32::MAX
    }
}

/// What one read returns, given the file's text and the read arguments.
pub open spec fn spec_read(content: Seq<char>, offset: Option<i64>, limit: Option<u32>) -> (
    Seq<char>,
    u32,
    bool,
) {
    let lines = spec_lines(content);
    let lim = spec_clamp_limit(limit);
    let off = match offset {
        Some(o) => o,
        None => 0,
    };
    if off < 0 {
        let start = spec_tail_start(lines.len(), off);
        let init = lines.len() - start > lim;
        let (text, trunc) = spec_render(lines.skip(start as int), start, lim, Seq::empty(), init);
        (text, spec_total_lines(lines.len()), trunc)
    } else {
        let start = spec_forward_start(lines.len(), off);
        let (text, trunc) = spec_render(lines.skip(start as int), start, lim, Seq::empty(), false);
        (text, spec_total_lines(lines.len()), trunc)
    }
}

/// Splits a text into its lines.
pub fn split_lines(chars: &Vec<char>) -> (r: Vec<Vec<char>>)
    ensures
        r.deep_view() == spec_lines(chars@),
{
    let parts = split_chars(chars, '\n');
    proof {
        lemma_split_len_pos(chars@, '\n');
    }
    let ghost pview = parts.deep_view();
    assert(pview.len() == parts@.len());
    let n = parts.len();
    let mut lines: Vec<Vec<char>> = Vec::new();
    let mut i: usize = 0;
    while i < n - 1
        invariant
            n == parts@.len(),
            n >= 1,
            pview == parts.deep_view(),
            pview == spec_split(chars@, '\n'),
            i <= n - 1,
            lines.deep_view() =~= Seq::new(i as nat, |j: int| spec_strip_cr(pview[j])),
        decreases n - 1 - i,
    {
        let part = &parts[i];
        assert(part@ == pview[i as int]);
        let stripped = if part.len() > 0 && part[part.len() - 1] == '\r' {
            let s = subrange_chars(part, 0, part.len() - 1);
            assert(s@ =~= pview[i as int].drop_last());
            s
        } else {
            subrange_chars(part, 0, part.len())
        };
        assert(stripped@ == spec_strip_cr(pview[i as int]));
        assert(stripped.deep_view() =~= stripped@);
        let ghost before = lines.deep_view();
        lines.push(stripped);
        assert(lines.deep_view() =~= before.push(spec_strip_cr(pview[i as int])));
        assert(lines.deep_view() =~~= Seq::new((i + 1) as nat, |j: int| spec_strip_cr(pview[j])));
        i = i + 1;
    }
    let last = &parts[n - 1];
    assert(last@ == pview[n - 1]);
    assert(pview.last() == pview[n - 1]);
    if last.len() > 0 {
        let copy = subrange_chars(last, 0, last.len());
        assert(copy@ =~= pview[n - 1]);
        assert(copy.deep_view() =~= copy@);
        let ghost before = lines.deep_view();
        lines.push(copy);
        assert(lines.deep_view() =~= before.push(pview[n - 1]));
        assert(lines.deep_view() =~~= spec_lines(chars@));
    } else {
        assert(lines.deep_view() =~~= spec_lines(chars@));
    }
    lines
}

} // verus!

verus! {

use crate::text::lemma_utf8_len_push;
use crate::text::lemma_utf8_len_concat;
use crate::text::lemma_utf8_len_bounds;

/// Renders one read of `content` under the given window arguments.
pub fn render_read(content: &str, offset: Option<i64>, limit: Option<u32>) -> (r: ReadResult)
    ensures
        ({
            let (text, total, trunc) = spec_read(content@, offset, limit);
            r.content@ == text && r.total_lines == total && r.truncated == trunc
        }),
{
    let chars = chars_of_str(content);
    let lines = split_lines(&chars);
    let ghost lview = lines.deep_view();
    let n = lines.len();
    assert(lview.len() == n);
    let total_lines: u32 = if n >= u32::MAX as usize {
        u32::MAX
    } else {
        n as u32
    };
    assert(total_lines == spec_total_lines(lview.len()));
    let lim: u32 = match limit {
        Some(l) => if l < DEFAULT_LIMIT {
            l
        } else {
            DEFAULT_LIMIT
        },
        None => DEFAULT_LIMIT,
    };
    assert(lim as nat == spec_clamp_limit(limit));
    let off: i64 = match offset {
        Some(o) => o,
        None => 0,
    };
    let start: usize;
    let init_trunc: bool;
    if off < 0 {
        let start_u: usize = if off == i64::MIN {
            0
        } else {
            let tail: u64 = (-off) as u64;
            if tail <= n as u64 {
                n - (tail as usize)
            } else {
                0
            }
        };
        start = start_u;
        init_trunc = n - start > lim as usize;
        assert(start as nat == spec_tail_start(lview.len(), off));
    } else {
        let off_u32: u32 = if off <= u32::MAX as i64 {
            off as u32
        } else {
            0
        };
        start = if (off_u32 as usize) <= n {
            off_u32 as usize
        } else {
            n
        };
        init_trunc = false;
        assert(start as nat == spec_forward_start(lview.len(), off));
    }
    let ghost target = spec_render(
        lview.skip(start as int),
        start as nat,
        lim as nat,
        Seq::empty(),
        init_trunc,
    );
    let mut acc: Vec<char> = Vec::new();
    let mut acc_bytes: usize = 0;
    let mut trunc: bool = init_trunc;
    let mut left: u32 = lim;
    let mut i: usize = start;
    while i < n
        invariant_except_break
            start <= i <= n,
            n == lview.len(),
            lview == lines.deep_view(),
            acc_bytes == spec_utf8_len_seq(acc@),
            acc_bytes <= MAX_OUTPUT_BYTES,
            target == spec_render(lview.skip(i as int), i as nat, left as nat, acc@, trunc),
        ensures
            target == (acc@, trunc),
        decreases n - i,
    {
        let ghost rest = lview.skip(i as int);
        assert(rest.len() == n - i);
        assert(rest.first() == lview[i as int]);
        if left == 0 {
            trunc = true;
            break;
        }
        let line = &lines[i];
        assert(line.deep_view() =~= line@);
        assert(line@ == lview[i as int]);
        let display: Vec<char>;
        let line_trunc: bool;
        if line.len() > MAX_LINE_CHARS {
            let mut d = subrange_chars(line, 0, MAX_LINE_CHARS);
            d.push('.');
            d.push('.');
            d.push('.');
            assert(d@ =~= spec_display_line(line@));
            display = d;
            line_trunc = true;
        } else {
            display = subrange_chars(line, 0, line.len());
            assert(display@ =~= spec_display_line(line@));
            line_trunc = false;
        }
        let mut formatted = zero_padded_decimal((i as u64) + 1, 5);
        formatted.push('|');
        formatted.push(' ');
        push_chars(&mut formatted, &display);
        assert(formatted@ =~= spec_numbered((i + 1) as nat, display@));
        proof {
            lemma_utf8_len_bounds(formatted@);
            crate::text::lemma_decimal_len_u64((i + 1) as nat);
            assert(formatted@.len() <= 2030);
        }
        let fbytes = utf8_len_chars(&formatted);
        assert(fbytes == spec_utf8_len_seq(formatted@));
        let extra: usize = if acc.len() == 0 {
            0
        } else {
            1
        };
        if acc_bytes + fbytes + extra > MAX_OUTPUT_BYTES {
            trunc = true;
            break;
        }
        let ghost acc_before = acc@;
        if acc.len() > 0 {
            acc.push('\n');
            acc_bytes = acc_bytes + 1;
            proof {
                lemma_utf8_len_push(acc_before, '\n');
            }
        }
        let ghost acc_mid = acc@;
        push_chars(&mut acc, &formatted);
        acc_bytes = acc_bytes + fbytes;
        proof {
            lemma_utf8_len_concat(acc_mid, formatted@);
            if acc_before.len() == 0 {
                assert(acc@ =~= formatted@);
            } else {
                assert(acc@ =~= acc_before + seq!['\n'] + formatted@);
                lemma_utf8_len_concat(acc_before, seq!['\n']);
                assert(spec_utf8_len_seq(seq!['\n']) == 1) by {
                    reveal_with_fuel(crate::text::spec_utf8_len_seq, 3);
                    assert(seq!['\n'].drop_last() =~= Seq::<char>::empty());
                    assert(('\n' as u32) == 10);
                }
            }
            assert(rest.drop_first() =~= lview.skip(i + 1 as int));
        }
        trunc = trunc || line_trunc;
        left = left - 1;
        i = i + 1;
    }
    if i == n && left > 0 {
        assert(lview.skip(n as int) =~= Seq::empty());
    }
    let text = string_of_chars(&acc);
    ReadResult { content: text, total_lines, truncated: trunc }
}

} // verus!

verus! {

/// `acc` extended with every line rendered in order, numbers continuing
/// from zero-based index `idx`.
pub open spec fn spec_rendered_lines(acc: Seq<char>, lines: Seq<Seq<char>>, idx: nat) -> Seq<
    char,
>
    decreases lines.len(),
{
    if lines.len() == 0 {
        acc
    } else {
        let formatted = spec_numbered(idx + 1, spec_display_line(lines.first()));
        spec_rendered_lines(
            if acc.len() == 0 {
                formatted
            } else {
                acc + seq!['\n'] + formatted
            },
            lines.drop_first(),
            idx + 1,
        )
    }
}

proof fn lemma_rendered_lines_grow(acc: Seq<char>, lines: Seq<Seq<char>>, idx: nat)
    ensures
        spec_utf8_len_seq(spec_rendered_lines(acc, lines, idx)) >= spec_utf8_len_seq(acc),
    decreases lines.len(),
{
    if lines.len() > 0 {
        let formatted = spec_numbered(idx + 1, spec_display_line(lines.first()));
        let acc2 = if acc.len() == 0 {
            formatted
        } else {
            acc + seq!['\n'] + formatted
        };
        lemma_rendered_lines_grow(acc2, lines.drop_first(), idx + 1);
        if acc.len() == 0 {
            crate::text::lemma_utf8_len_bounds(formatted);
        } else {
            crate::text::lemma_utf8_len_concat(acc + seq!['\n'], formatted);
            crate::text::lemma_utf8_len_concat(acc, seq!['\n']);
        }
    }
}

proof fn lemma_render_complete(lines: Seq<Seq<char>>, idx: nat, limit: nat, acc: Seq<char>)
    requires
        limit >= lines.len(),
        forall|i: int| 0 <= i < lines.len() ==> (#[trigger] lines[i]).len() <= MAX_LINE_CHARS,
        spec_utf8_len_seq(spec_rendered_lines(acc, lines, idx)) <= MAX_OUTPUT_BYTES,
    ensures
        spec_render(lines, idx, limit, acc, false) == (spec_rendered_lines(acc, lines, idx), false),
    decreases lines.len(),
{
    if lines.len() > 0 {
        let line = lines.first();
        assert(line == lines[0]);
        let formatted = spec_numbered(idx + 1, spec_display_line(line));
        let acc2 = if acc.len() == 0 {
            formatted
        } else {
            acc + seq!['\n'] + formatted
        };
        assert(spec_utf8_len_seq(acc2) == spec_utf8_len_seq(acc) + spec_utf8_len_seq(formatted)
            + if acc.len() == 0 {
            0nat
        } else {
            1nat
        }) by {
            if acc.len() == 0 {
            } else {
                crate::text::lemma_utf8_len_concat(acc + seq!['\n'], formatted);
                crate::text::lemma_utf8_len_concat(acc, seq!['\n']);
                assert(spec_utf8_len_seq(seq!['\n']) == 1) by {
                    reveal_with_fuel(crate::text::spec_utf8_len_seq, 3);
                    assert(seq!['\n'].drop_last() =~= Seq::<char>::empty());
                    assert(('\n' as u32) == 10);
                }
            }
        }
        lemma_rendered_lines_grow(acc2, lines.drop_first(), idx + 1);
        assert(forall|i: int|
            0 <= i < lines.drop_first().len() ==> (#[trigger] lines.drop_first()[i]).len()
                <= MAX_LINE_CHARS) by {
            assert(forall|i: int|
                0 <= i < lines.drop_first().len() ==> lines.drop_first()[i] == lines[i + 1]);
        }
        lemma_render_complete(lines.drop_first(), idx + 1, (limit - 1) as nat, acc2);
    }
}

/// Law: reading a text whose lines all fit the caps, with no offset and no
/// limit, returns every line whole, numbered one-based in order, with no
/// truncation, and reports the exact line count.
pub proof fn lemma_read_round_trip(content: Seq<char>)
    requires
        spec_lines(content).len() <= DEFAULT_LIMIT,
        forall|i: int|
            0 <= i < spec_lines(content).len() ==> (#[trigger] spec_lines(content)[i]).len()
                <= MAX_LINE_CHARS,
        spec_utf8_len_seq(spec_rendered_lines(Seq::empty(), spec_lines(content), 0))
            <= MAX_OUTPUT_BYTES,
    ensures
        spec_read(content, None, None) == (
            spec_rendered_lines(Seq::empty(), spec_lines(content), 0),
            spec_lines(content).len() as u32,
            false,
        ),
{
    let lines = spec_lines(content);
    assert(spec_forward_start(lines.len(), 0) == 0);
    assert(lines.skip(0) =~= lines);
    lemma_render_complete(lines, 0, spec_clamp_limit(None), Seq::empty());
}

/// Law: a tail read of one line on a two-line text returns only the second
/// line, numbered 2, with the total line count 2 and nothing truncated.
pub proof fn lemma_read_tail_last_line(content: Seq<char>)
    requires
        spec_lines(content).len() == 2,
        spec_lines(content)[1].len() <= MAX_LINE_CHARS,
        spec_utf8_len_seq(
            spec_rendered_lines(Seq::empty(), spec_lines(content).skip(1), 1),
        ) <= MAX_OUTPUT_BYTES,
    ensures
        spec_read(content, Some(-1i64), None) == (
            spec_numbered(2, spec_lines(content)[1]),
            2u32,
            false,
        ),
{
    let lines = spec_lines(content);
    assert(spec_tail_start(lines.len(), -1i64) == 1);
    let rest = lines.skip(1);
    assert(rest.len() == 1);
    assert(rest[0] == lines[1]);
    assert(forall|i: int| 0 <= i < rest.len() ==> (#[trigger] rest[i]).len() <= MAX_LINE_CHARS);
    lemma_render_complete(rest, 1, spec_clamp_limit(None), Seq::empty());
    assert(rest.drop_first() =~= Seq::empty());
    assert(spec_display_line(lines[1]) == lines[1]);
    assert(rest.first() == lines[1]);
    assert(spec_rendered_lines(Seq::empty(), rest, 1) == spec_numbered(2, lines[1])) by {
        reveal_with_fuel(spec_rendered_lines, 3);
    }
}

/// Whether the probed bytes look binary: they hold a NUL byte.
pub open spec fn spec_has_nul(bytes: Seq<u8>) -> bool {
    exists|i: int| 0 <= i < bytes.len() && bytes[i] == 0
}

/// Binary sniff over a probe buffer: any NUL byte rejects the file.
pub fn contains_nul(bytes: &Vec<u8>) -> (r: bool)
    ensures
        r == spec_has_nul(bytes@),
{
    let mut i: usize = 0;
    while i < bytes.len()
        invariant
            i <= bytes@.len(),
            forall|j: int| 0 <= j < i ==> bytes@[j] != 0,
        decreases bytes@.len() - i,
    {
        if bytes[i] == 0 {
            return true;
        }
        i = i + 1;
    }
    false
}

} // verus!

verus! {

use crate::jsonval::JsonValue;
use crate::jsonval::Json;
use crate::jsonval::spec_json;
use crate::jsonval::json_num_u64;
use crate::jsonval::json_to_string;
use crate::jsonval::view_json_obj;
use crate::jsonval::lemma_view_json_obj_len;
use crate::jsonval::lemma_view_json_obj_index;
use crate::text::spec_decimal;

/// The read result as the engine receives it.
pub open spec fn spec_read_result_json(r: ReadResult) -> Json {
    Json::Obj(
        seq![
            ("content"@, Json::Str(r.content@)),
            ("total_lines"@, Json::Num(spec_decimal(r.total_lines as nat))),
            ("truncated"@, Json::Bool(r.truncated)),
        ],
    )
}

/// Serializes a read result for the tool-result payload.
pub fn read_result_json(r: &ReadResult) -> (out: String)
    ensures
        out@ == spec_json(spec_read_result_json(*r)),
{
    let mut entries: Vec<(String, JsonValue)> = Vec::new();
    entries.push(("content".to_owned(), JsonValue::Str(r.content.clone())));
    entries.push(("total_lines".to_owned(), json_num_u64(r.total_lines as u64)));
    entries.push(("truncated".to_owned(), JsonValue::Bool(r.truncated)));
    proof {
        lemma_view_json_obj_len(entries@);
        lemma_view_json_obj_index(entries@, 0);
        lemma_view_json_obj_index(entries@, 1);
        lemma_view_json_obj_index(entries@, 2);
        assert(view_json_obj(entries@) =~= spec_read_result_json(*r)->Obj_0);
    }
    let obj = JsonValue::Obj(entries);
    json_to_string(&obj)
}

} // verus!
