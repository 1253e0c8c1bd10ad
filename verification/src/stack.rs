use vstd::prelude::*;

verus! {

/// Bytes shown per line of a stack dump.
pub const ROW_BYTES: usize = 16;

/// The lowercase hexadecimal digit for `n` (0..16).
pub open spec fn hex_digit(n: int) -> u8 {
    if n < 10 {
        (0x30 + n) as u8
    } else {
        (0x61 + n - 10) as u8
    }
}

/// The last `n` hexadecimal digits of `v`, most significant first, zero-padded.
pub open spec fn hex_digits(v: nat, n: nat) -> Seq<u8>
    decreases n,
{
    if n == 0 {
        Seq::empty()
    } else {
        hex_digits(v / 16, (n - 1) as nat).push(hex_digit((v % 16) as int))
    }
}

/// How a byte shows in the character column: printable ASCII as itself, anything else as `.`.
pub open spec fn shown(b: u8) -> u8 {
    if 32 <= b <= 126 {
        b
    } else {
        0x2E
    }
}

/// Each byte as two hex digits followed by a space.
pub open spec fn hex_column(bytes: Seq<u8>) -> Seq<u8>
    decreases bytes.len(),
{
    if bytes.len() == 0 {
        Seq::empty()
    } else {
        hex_column(bytes.drop_last()) + hex_digits(bytes.last() as nat, 2).push(0x20)
    }
}

/// One line of a dump: `aaaaaaaa: ` with the address, the hex column,
/// ` |`, the character column and `|` with a newline.
pub open spec fn row_text(addr: u32, bytes: Seq<u8>) -> Seq<u8> {
    hex_digits(addr as nat, 8) + seq![0x3A, 0x20] + hex_column(bytes) + seq![0x20, 0x7C]
        + bytes.map_values(|b: u8| shown(b)) + seq![0x7C, 0x0A]
}

/// The first `rows` lines of a dump of `mem`, which starts at address `start`.
pub open spec fn dump_text(start: u32, mem: Seq<u8>, rows: nat) -> Seq<u8>
    decreases rows,
{
    if rows == 0 {
        Seq::empty()
    } else {
        let r = rows - 1;
        dump_text(start, mem, r as nat) + row_text(
            (start + r * ROW_BYTES) as u32,
            mem.subrange(r * ROW_BYTES, r * ROW_BYTES + ROW_BYTES),
        )
    }
}

fn hex_digit_byte(n: u8) -> (d: u8)
    requires
        n < 16,
    ensures
        d == hex_digit(n as int),
{
    if n < 10 {
        '0' as u8 + n
    } else {
        'a' as u8 + n - 10
    }
}

fn push_hex(out: &mut Vec<u8>, v: u32, n: usize)
    requires
        n <= 8,
    ensures
        final(out)@ == old(out)@ + hex_digits(v as nat, n as nat),
    decreases n,
{
    if n > 0 {
        push_hex(out, v / 16, n - 1);
        out.push(hex_digit_byte((v % 16) as u8));
        proof {
            assert(hex_digits(v as nat, n as nat) == hex_digits((v / 16) as nat, (n - 1) as nat).push(
                hex_digit((v % 16) as int),
            ));
        }
    } else {
        proof {
            assert(old(out)@ + hex_digits(v as nat, 0) =~= old(out)@);
        }
    }
}

/// Formats one dump line for the bytes `row` found at address `addr`.
pub fn format_row(out: &mut Vec<u8>, addr: u32, row: &[u8])
    ensures
        final(out)@ == old(out)@ + row_text(addr, row@),
{
    push_hex(out, addr, 8);
    out.push(':' as u8);
    out.push(' ' as u8);
    let ghost after_addr = out@;
    let mut i: usize = 0;
    while i < row.len()
        invariant
            i <= row@.len(),
            out@ == after_addr + hex_column(row@.take(i as int)),
        decreases row@.len() - i,
    {
        let b = row[i];
        push_hex(out, b as u32, 2);
        out.push(' ' as u8);
        proof {
            assert(row@.take(i as int + 1).drop_last() =~= row@.take(i as int));
        }
        i = i + 1;
    }
    out.push(' ' as u8);
    out.push('|' as u8);
    let ghost after_hex = out@;
    let mut j: usize = 0;
    while j < row.len()
        invariant
            j <= row@.len(),
            out@ == after_hex + row@.take(j as int).map_values(|b: u8| shown(b)),
        decreases row@.len() - j,
    {
        let b = row[j];
        let c = if b >= 32 && b <= 126 {
            b
        } else {
            '.' as u8
        };
        out.push(c);
        proof {
            assert(row@.take(j as int + 1).map_values(|b: u8| shown(b)) =~= row@.take(j as int).map_values(
                |b: u8| shown(b),
            ).push(shown(b)));
        }
        j = j + 1;
    }
    out.push('|' as u8);
    out.push('\n' as u8);
    proof {
        assert(row@.take(row@.len() as int) =~= row@);
        assert(out@ =~= old(out)@ + row_text(addr, row@));
    }
}

/// The text of a stack dump: `mem` holds the bytes found from address `esp` up,
/// shown 16 to a line (a last partial line is left out), each line giving its
/// address, the bytes in hex and the bytes as characters.
pub fn stack_dump_text(esp: u32, mem: &[u8]) -> (text: Vec<u8>)
    requires
        esp + mem@.len() <= 0x1_0000_0000,
    ensures
        text@ == dump_text(esp, mem@, mem@.len() / ROW_BYTES as nat),
        text@.len() == (mem@.len() / ROW_BYTES as nat) * line_width(),
{
    let len = mem.len();
    let rows = len / ROW_BYTES;
    let mut text: Vec<u8> = Vec::new();
    let mut row: usize = 0;
    while row < rows
        invariant
            rows == mem@.len() / ROW_BYTES as nat,
            len == mem@.len(),
            row <= rows,
            esp + mem@.len() <= 0x1_0000_0000,
            text@ == dump_text(esp, mem@, row as nat),
        decreases rows - row,
    {
        let start = row * ROW_BYTES;
        proof {
            assert(start + ROW_BYTES <= mem@.len()) by (nonlinear_arith)
                requires
                    row < rows,
                    rows == mem@.len() / 16,
                    start == row * 16,
            ;
        }
        assert(start + ROW_BYTES <= mem@.len());
        let addr = esp + start as u32;
        let bytes = vstd::slice::slice_subrange(mem, start, start + ROW_BYTES);
        format_row(&mut text, addr, bytes);
        row = row + 1;
    }
    proof {
        assert((mem@.len() / 16) * 16 <= mem@.len()) by (nonlinear_arith);
        lemma_dump_len(esp, mem@, mem@.len() / ROW_BYTES as nat);
    }
    text
}

/// Width of one dump line: 8 address digits, `: `, 16 times two digits and a space,
/// ` |`, 16 characters, `|` and the newline.
pub open spec fn line_width() -> nat {
    78
}

proof fn lemma_hex_digits_len(v: nat, n: nat)
    ensures
        hex_digits(v, n).len() == n,
    decreases n,
{
    if n > 0 {
        lemma_hex_digits_len(v / 16, (n - 1) as nat);
    }
}

proof fn lemma_hex_column_len(bytes: Seq<u8>)
    ensures
        hex_column(bytes).len() == 3 * bytes.len(),
    decreases bytes.len(),
{
    if bytes.len() > 0 {
        lemma_hex_column_len(bytes.drop_last());
        lemma_hex_digits_len(bytes.last() as nat, 2);
    }
}

/// A line for a full row of 16 bytes is always `line_width()` characters long.
pub proof fn law_row_width(addr: u32, bytes: Seq<u8>)
    requires
        bytes.len() == ROW_BYTES,
    ensures
        row_text(addr, bytes).len() == line_width(),
{
    lemma_hex_digits_len(addr as nat, 8);
    lemma_hex_column_len(bytes);
}

/// A dump of `rows` rows has exactly `rows` lines: it is `rows * line_width()`
/// characters long, and its line `r` is the line for the 16 bytes at offset `16 * r`,
/// labelled with address `start + 16 * r`.
pub proof fn law_dump_lines(start: u32, mem: Seq<u8>, rows: nat, r: int)
    requires
        rows * ROW_BYTES <= mem.len(),
        start + mem.len() <= 0x1_0000_0000,
        0 <= r < rows,
    ensures
        dump_text(start, mem, rows).len() == rows * line_width(),
        dump_text(start, mem, rows).subrange(r * line_width(), (r + 1) * line_width()) == row_text(
            (start + r * ROW_BYTES) as u32,
            mem.subrange(r * ROW_BYTES, r * ROW_BYTES + ROW_BYTES),
        ),
    decreases rows,
{
    lemma_dump_len(start, mem, rows);
    let last = (rows - 1) as nat;
    lemma_dump_len(start, mem, last);
    let row = row_text(
        (start + last * ROW_BYTES) as u32,
        mem.subrange(last * ROW_BYTES, last * ROW_BYTES + ROW_BYTES),
    );
    law_row_width((start + last * ROW_BYTES) as u32, mem.subrange(last * ROW_BYTES, last * ROW_BYTES + ROW_BYTES));
    let whole = dump_text(start, mem, rows);
    let prefix = dump_text(start, mem, last);
    assert(whole == prefix + row);
    assert(last * line_width() == prefix.len()) by (nonlinear_arith)
        requires
            prefix.len() == last * 78,
    ;
    if r == last {
        assert(whole.subrange(r * line_width(), (r + 1) * line_width()) =~= row);
    } else {
        law_dump_lines(start, mem, last, r);
        assert((r + 1) * 78 <= last * 78) by (nonlinear_arith)
            requires
                r < last,
        ;
        assert(whole.subrange(r * line_width(), (r + 1) * line_width()) =~= prefix.subrange(
            r * line_width(),
            (r + 1) * line_width(),
        ));
    }
}

proof fn lemma_dump_len(start: u32, mem: Seq<u8>, rows: nat)
    requires
        rows * ROW_BYTES <= mem.len(),
    ensures
        dump_text(start, mem, rows).len() == rows * line_width(),
    decreases rows,
{
    if rows > 0 {
        let last = (rows - 1) as nat;
        assert(last * ROW_BYTES <= mem.len()) by (nonlinear_arith)
            requires
                rows * 16 <= mem.len(),
                last == rows - 1,
        ;
        lemma_dump_len(start, mem, last);
        assert(last * ROW_BYTES + ROW_BYTES <= mem.len()) by (nonlinear_arith)
            requires
                rows * 16 <= mem.len(),
                last == rows - 1,
        ;
        law_row_width(
            (start + last * ROW_BYTES) as u32,
            mem.subrange(last * ROW_BYTES, last * ROW_BYTES + ROW_BYTES),
        );
        assert(last * 78 + 78 == rows * 78) by (nonlinear_arith)
            requires
                last == rows - 1,
        ;
    }
}

} // verus!
