//! The two-pass assembler.
//!
//! Pass 1 scans the source lines and builds the label table: a label
//! declaration records the address of the next instruction-emitting
//! line; every instruction line advances the address counter by 4,
//! label-only and blank lines do not.  Pass 2 re-scans with the same
//! advancement rule, classifies each instruction line by its operand
//! count and mnemonic, expands pseudo-instructions, resolves registers,
//! literals and label displacements, and emits one 32-bit word per
//! instruction line, in source order.  The first failure aborts the
//! whole assembly: there is no partial output.
//!
//! Comments run from `#` to the end of the line; mnemonics are
//! lowered before dispatch; registers and labels are case-sensitive.

use vstd::prelude::*;
use vstd::slice::{slice_subrange, slice_to_vec};
use crate::err::{AsmError, SpecAsmError, res_view, res_vec_view};
use crate::labels::LabelTable;
use crate::literals::{spec_parse_literal, parse_number_chars};
use crate::table::{
    is1, is2, is3, is4, is5, spec_encode_instruction, encode_instruction_chars, ceq1, ceq2, ceq3,
    ceq4, ceq5,
};
use crate::text::{
    first_idx, lemma_first_idx, find_char, spec_trim, trim_slice, spec_split, split_chars,
    spec_lower, lower_chars, chars_of,
};

verus! {

/// A source line with its comment stripped and surrounding whitespace
/// trimmed: what both passes classify.
pub open spec fn spec_clean_line(line: Seq<char>) -> Seq<char> {
    spec_trim(line.take(first_idx(line, '#')))
}

/// A line that is empty once cleaned: skipped by both passes.
pub open spec fn spec_is_blank(line: Seq<char>) -> bool {
    spec_clean_line(line).len() == 0
}

/// A label declaration: a cleaned line ending in `:`.
pub open spec fn spec_is_label(line: Seq<char>) -> bool {
    spec_clean_line(line).len() > 0 && spec_clean_line(line).last() == ':'
}

/// The declared label's name: what stands before the first `:`,
/// trimmed.
pub open spec fn spec_label_name(line: Seq<char>) -> Seq<char> {
    let c = spec_clean_line(line);
    spec_trim(c.take(first_idx(c, ':')))
}

/// The address counter after one instruction line: four more, wrapping
/// at the edge of the 32-bit address space.
pub open spec fn spec_next_addr(a: u32) -> u32 {
    if a + 4 <= 0xFFFF_FFFF {
        (a + 4) as u32
    } else {
        (a + 4 - 0x1_0000_0000) as u32
    }
}

/// Advances the address counter over one instruction line.
pub fn next_addr(a: u32) -> (r: u32)
    ensures
        r == spec_next_addr(a),
{
    if a <= 0xFFFF_FFFB {
        a + 4
    } else {
        a - 0xFFFF_FFFC
    }
}

/// The signed byte displacement from `cur` to `target`: their
/// difference as a 32-bit two's-complement value.
pub open spec fn spec_displacement(target: u32, cur: u32) -> i32 {
    let d = target - cur;
    if d < -0x8000_0000 {
        (d + 0x1_0000_0000) as i32
    } else if d >= 0x8000_0000 {
        (d - 0x1_0000_0000) as i32
    } else {
        d as i32
    }
}

/// Computes the signed byte displacement from `cur` to `target`.
pub fn displacement(target: u32, cur: u32) -> (r: i32)
    ensures
        r == spec_displacement(target, cur),
{
    let d: i64 = target as i64 - cur as i64;
    let w: i64 = if d < -0x8000_0000i64 {
        d + 0x1_0000_0000i64
    } else if d >= 0x8000_0000i64 {
        d - 0x1_0000_0000i64
    } else {
        d
    };
    w as i32
}

/// The label table a source produces: one entry per declaration, at
/// the address current when the declaration is met.
pub open spec fn spec_pass1(
    lines: Seq<Seq<char>>,
    i: int,
    addr: u32,
    acc: Map<Seq<char>, u32>,
) -> Map<Seq<char>, u32>
    decreases lines.len() - i,
{
    if i < 0 || i >= lines.len() {
        acc
    } else if spec_is_blank(lines[i]) {
        spec_pass1(lines, i + 1, addr, acc)
    } else if spec_is_label(lines[i]) {
        spec_pass1(lines, i + 1, addr, acc.insert(spec_label_name(lines[i]), addr))
    } else {
        spec_pass1(lines, i + 1, spec_next_addr(addr), acc)
    }
}

/// The label table of a whole line sequence, from address zero.
pub open spec fn spec_label_table(lines: Seq<Seq<char>>) -> Map<Seq<char>, u32> {
    spec_pass1(lines, 0, 0, Map::empty())
}

/// The 3-register arithmetic mnemonics, dispatched with three operands.
pub open spec fn spec_is_rtype_mn(m: Seq<char>) -> bool {
    is3(m, 'a', 'd', 'd') || is3(m, 's', 'u', 'b') || is3(m, 'a', 'n', 'd') || is2(m, 'o', 'r')
        || is3(m, 'x', 'o', 'r') || is3(m, 's', 'l', 'l') || is3(m, 's', 'r', 'l') || is3(
        m,
        's',
        'r',
        'a',
    ) || is3(m, 's', 'l', 't') || is4(m, 's', 'l', 't', 'u')
}

/// The immediate-arithmetic mnemonics, dispatched with three operands,
/// the third a literal.
pub open spec fn spec_is_itype_mn(m: Seq<char>) -> bool {
    is4(m, 'a', 'd', 'd', 'i') || is4(m, 'a', 'n', 'd', 'i') || is3(m, 'o', 'r', 'i') || is4(
        m,
        'x',
        'o',
        'r',
        'i',
    ) || is4(m, 's', 'l', 'l', 'i') || is4(m, 's', 'r', 'l', 'i') || is4(m, 's', 'r', 'a', 'i')
        || is4(m, 's', 'l', 't', 'i') || is5(m, 's', 'l', 't', 'i', 'u') || is4(
        m,
        'j',
        'a',
        'l',
        'r',
    )
}

/// The branch mnemonics, dispatched with three operands, the third a
/// label.
pub open spec fn spec_is_branch_mn(m: Seq<char>) -> bool {
    is3(m, 'b', 'e', 'q') || is3(m, 'b', 'n', 'e') || is3(m, 'b', 'l', 't') || is4(
        m,
        'b',
        'l',
        't',
        'u',
    ) || is3(m, 'b', 'g', 'e') || is4(m, 'b', 'g', 'e', 'u')
}

/// The mnemonics taking the two-operand `rd, imm(rs1)` offset form
/// that read through rs1: the loads and `jalr`.
pub open spec fn spec_is_load_mn(m: Seq<char>) -> bool {
    is2(m, 'l', 'b') || is3(m, 'l', 'b', 'u') || is2(m, 'l', 'h') || is3(m, 'l', 'h', 'u') || is2(
        m,
        'l',
        'w',
    ) || is4(m, 'j', 'a', 'l', 'r')
}

/// The store mnemonics, taking the two-operand `rs2, imm(rs1)` offset
/// form.
pub open spec fn spec_is_store_mn(m: Seq<char>) -> bool {
    is2(m, 's', 'b') || is2(m, 's', 'h') || is2(m, 's', 'w')
}

/// The register token `x0`, supplied for operands a format ignores.
pub open spec fn spec_x0() -> Seq<char> {
    seq!['x', '0']
}

/// The register token `ra`, the default link register of bare `jal`.
pub open spec fn spec_ra() -> Seq<char> {
    seq!['r', 'a']
}

/// The mnemonic `addi`, the expansion target of `li`.
pub open spec fn spec_mn_addi() -> Seq<char> {
    seq!['a', 'd', 'd', 'i']
}

/// The mnemonic `add`, the expansion target of `mv`.
pub open spec fn spec_mn_add() -> Seq<char> {
    seq!['a', 'd', 'd']
}

/// The mnemonic `xori`, the expansion target of `not`.
pub open spec fn spec_mn_xori() -> Seq<char> {
    seq!['x', 'o', 'r', 'i']
}

/// The mnemonic `sub`, the expansion target of `neg`.
pub open spec fn spec_mn_sub() -> Seq<char> {
    seq!['s', 'u', 'b']
}

/// The mnemonic `jal`, the expansion target of `j` and of bare `jal`.
pub open spec fn spec_mn_jal() -> Seq<char> {
    seq!['j', 'a', 'l']
}

/// The operand list of an instruction line's tail: the tail split at
/// every comma, each piece trimmed.
pub open spec fn spec_operands(rest: Seq<char>) -> Seq<Seq<char>> {
    spec_split(rest, ',').map_values(|p: Seq<char>| spec_trim(p))
}

/// What a three-operand line encodes to: a 3-register arithmetic
/// instruction, an immediate-arithmetic instruction whose third
/// operand is a literal, or a branch whose third operand is a label.
pub open spec fn spec_encode_line3(
    line: Seq<char>,
    mn: Seq<char>,
    ops: Seq<Seq<char>>,
    labels: Map<Seq<char>, u32>,
    addr: u32,
) -> Result<u32, SpecAsmError> {
    if spec_is_rtype_mn(mn) {
        spec_encode_instruction(mn, ops[0], ops[1], ops[2], -1i32)
    } else if spec_is_itype_mn(mn) {
        match spec_parse_literal(ops[2]) {
            None => Err(SpecAsmError::MalformedLiteral(ops[2])),
            Some(v) => spec_encode_instruction(mn, ops[0], ops[1], spec_x0(), v as i32),
        }
    } else if spec_is_branch_mn(mn) {
        if !labels.contains_key(ops[2]) {
            Err(SpecAsmError::UndefinedLabel(ops[2]))
        } else {
            spec_encode_instruction(
                mn,
                spec_x0(),
                ops[0],
                ops[1],
                spec_displacement(labels[ops[2]], addr),
            )
        }
    } else {
        Err(SpecAsmError::UnsupportedOperandShape(line))
    }
}

/// What the `imm(rs1)` offset operand splits into: the literal before
/// the first `(`, and the register up to the first `)` after it.
pub open spec fn spec_offset_imm(op: Seq<char>) -> Seq<char> {
    op.take(first_idx(op, '('))
}

/// The register part of an `imm(rs1)` offset operand.
pub open spec fn spec_offset_reg(op: Seq<char>) -> Seq<char> {
    let after = op.skip(first_idx(op, '(') + 1);
    after.take(first_idx(after, ')'))
}

/// What a two-operand line encodes to: a pseudo-instruction (`li`,
/// `mv`, `not`, `neg`, `jal label`), a U-format instruction, or a load
/// or store in offset syntax.
pub open spec fn spec_encode_line2(
    line: Seq<char>,
    mn: Seq<char>,
    ops: Seq<Seq<char>>,
    labels: Map<Seq<char>, u32>,
    addr: u32,
) -> Result<u32, SpecAsmError> {
    if is2(mn, 'l', 'i') {
        match spec_parse_literal(ops[1]) {
            None => Err(SpecAsmError::MalformedLiteral(ops[1])),
            Some(v) => spec_encode_instruction(spec_mn_addi(), ops[0], spec_x0(), spec_x0(), v as i32),
        }
    } else if is2(mn, 'm', 'v') {
        spec_encode_instruction(spec_mn_add(), ops[0], ops[1], spec_x0(), -1i32)
    } else if is3(mn, 'n', 'o', 't') {
        spec_encode_instruction(spec_mn_xori(), ops[0], ops[1], spec_x0(), -1i32)
    } else if is3(mn, 'n', 'e', 'g') {
        spec_encode_instruction(spec_mn_sub(), ops[0], spec_x0(), ops[1], -1i32)
    } else if is3(mn, 'j', 'a', 'l') {
        if !labels.contains_key(ops[1]) {
            Err(SpecAsmError::UndefinedLabel(ops[1]))
        } else {
            spec_encode_instruction(
                spec_mn_jal(),
                ops[0],
                spec_x0(),
                spec_x0(),
                spec_displacement(labels[ops[1]], addr),
            )
        }
    } else if is3(mn, 'l', 'u', 'i') || is5(mn, 'a', 'u', 'i', 'p', 'c') {
        match spec_parse_literal(ops[1]) {
            None => Err(SpecAsmError::MalformedLiteral(ops[1])),
            Some(v) => spec_encode_instruction(mn, ops[0], spec_x0(), spec_x0(), v as i32),
        }
    } else if spec_is_load_mn(mn) {
        if first_idx(ops[1], '(') == ops[1].len() {
            Err(SpecAsmError::UnsupportedOperandShape(line))
        } else {
            match spec_parse_literal(spec_offset_imm(ops[1])) {
                None => Err(SpecAsmError::MalformedLiteral(spec_offset_imm(ops[1]))),
                Some(v) => spec_encode_instruction(
                    mn,
                    ops[0],
                    spec_offset_reg(ops[1]),
                    spec_x0(),
                    v as i32,
                ),
            }
        }
    } else if spec_is_store_mn(mn) {
        if first_idx(ops[1], '(') == ops[1].len() {
            Err(SpecAsmError::UnsupportedOperandShape(line))
        } else {
            match spec_parse_literal(spec_offset_imm(ops[1])) {
                None => Err(SpecAsmError::MalformedLiteral(spec_offset_imm(ops[1]))),
                Some(v) => spec_encode_instruction(
                    mn,
                    spec_x0(),
                    spec_offset_reg(ops[1]),
                    ops[0],
                    v as i32,
                ),
            }
        }
    } else {
        Err(SpecAsmError::UnsupportedOperandShape(line))
    }
}

/// What a one-operand line encodes to: `jal label` linking through
/// `ra`, or the unconditional jump `j label` through `x0`.
pub open spec fn spec_encode_line1(
    line: Seq<char>,
    mn: Seq<char>,
    ops: Seq<Seq<char>>,
    labels: Map<Seq<char>, u32>,
    addr: u32,
) -> Result<u32, SpecAsmError> {
    if is3(mn, 'j', 'a', 'l') {
        if !labels.contains_key(ops[0]) {
            Err(SpecAsmError::UndefinedLabel(ops[0]))
        } else {
            spec_encode_instruction(
                spec_mn_jal(),
                spec_ra(),
                spec_x0(),
                spec_x0(),
                spec_displacement(labels[ops[0]], addr),
            )
        }
    } else if is1(mn, 'j') {
        if !labels.contains_key(ops[0]) {
            Err(SpecAsmError::UndefinedLabel(ops[0]))
        } else {
            spec_encode_instruction(
                spec_mn_jal(),
                spec_x0(),
                spec_x0(),
                spec_x0(),
                spec_displacement(labels[ops[0]], addr),
            )
        }
    } else {
        Err(SpecAsmError::UnsupportedOperandShape(line))
    }
}

/// What one source line contributes in pass 2: nothing for a blank or
/// label line, else one word or the first error met on the line.
pub open spec fn spec_encode_line(
    line: Seq<char>,
    labels: Map<Seq<char>, u32>,
    addr: u32,
) -> Option<Result<u32, SpecAsmError>> {
    let c = spec_clean_line(line);
    if c.len() == 0 || c.last() == ':' {
        None
    } else if first_idx(c, ' ') == c.len() {
        Some(Err(SpecAsmError::UnsupportedOperandShape(line)))
    } else {
        let mn = spec_lower(c.take(first_idx(c, ' ')));
        let ops = spec_operands(c.skip(first_idx(c, ' ') + 1));
        if ops.len() == 3 {
            Some(spec_encode_line3(line, mn, ops, labels, addr))
        } else if ops.len() == 2 {
            Some(spec_encode_line2(line, mn, ops, labels, addr))
        } else if ops.len() == 1 {
            Some(spec_encode_line1(line, mn, ops, labels, addr))
        } else {
            Some(Err(SpecAsmError::UnsupportedOperandShape(line)))
        }
    }
}

/// The words the lines from `i` on emit under the given label table
/// and starting address, or the first error met.
pub open spec fn spec_pass2(
    lines: Seq<Seq<char>>,
    labels: Map<Seq<char>, u32>,
    i: int,
    addr: u32,
) -> Result<Seq<u32>, SpecAsmError>
    decreases lines.len() - i,
{
    if i < 0 || i >= lines.len() {
        Ok(Seq::empty())
    } else {
        match spec_encode_line(lines[i], labels, addr) {
            None => spec_pass2(lines, labels, i + 1, addr),
            Some(Err(e)) => Err(e),
            Some(Ok(w)) => match spec_pass2(lines, labels, i + 1, spec_next_addr(addr)) {
                Ok(rest) => Ok(seq![w] + rest),
                Err(e) => Err(e),
            },
        }
    }
}

/// A source text's lines: the text split at every newline.
pub open spec fn spec_lines(src: Seq<char>) -> Seq<Seq<char>> {
    spec_split(src, '\n')
}

/// What the assembler produces for a source text: the words of its
/// instruction lines in source order, under the label table its own
/// pass 1 builds, or the first error met in pass 2.
pub open spec fn spec_assemble(src: Seq<char>) -> Result<Seq<u32>, SpecAsmError> {
    spec_pass2(spec_lines(src), spec_label_table(spec_lines(src)), 0, 0)
}

/// The number of instruction-emitting lines with index in `[i, k)`:
/// the lines that are neither blank nor label declarations.
pub open spec fn spec_count_range(lines: Seq<Seq<char>>, i: int, k: int) -> int
    decreases k - i,
{
    if i >= k {
        0
    } else {
        (if 0 <= i < lines.len() && !spec_is_blank(lines[i]) && !spec_is_label(lines[i]) {
            1int
        } else {
            0int
        }) + spec_count_range(lines, i + 1, k)
    }
}

/// The address counter after `n` more instruction lines, from `a`.
pub open spec fn spec_addr_after(a: u32, n: int) -> u32
    decreases n,
{
    if n <= 0 {
        a
    } else {
        spec_addr_after(spec_next_addr(a), n - 1)
    }
}

/// While the counter stays inside the 32-bit address space it advances
/// by exactly four bytes per instruction line.
pub proof fn lemma_addr_after_small(a: u32, n: int)
    requires
        n >= 0,
        a + 4 * n <= 0xFFFF_FFFF,
    ensures
        spec_addr_after(a, n) == a + 4 * n,
    decreases n,
{
    if n > 0 {
        lemma_addr_after_small(spec_next_addr(a), n - 1);
    }
}

/// Pass 1 never removes an entry: a name no remaining line declares
/// keeps the address it already has.
proof fn lemma_pass1_preserves(
    lines: Seq<Seq<char>>,
    i: int,
    addr: u32,
    acc: Map<Seq<char>, u32>,
    name: Seq<char>,
)
    requires
        acc.contains_key(name),
        forall|j: int|
            i <= j < lines.len() ==> (spec_is_label(lines[j]) ==> spec_label_name(lines[j])
                != name),
    ensures
        spec_pass1(lines, i, addr, acc).contains_key(name),
        spec_pass1(lines, i, addr, acc)[name] == acc[name],
    decreases lines.len() - i,
{
    if 0 <= i < lines.len() {
        if spec_is_blank(lines[i]) {
            lemma_pass1_preserves(lines, i + 1, addr, acc, name);
        } else if spec_is_label(lines[i]) {
            lemma_pass1_preserves(
                lines,
                i + 1,
                addr,
                acc.insert(spec_label_name(lines[i]), addr),
                name,
            );
        } else {
            lemma_pass1_preserves(lines, i + 1, spec_next_addr(addr), acc, name);
        }
    }
}

/// The address pass 1 records for the last declaration of a label: the
/// counter at the declaration, which is the counter at `i` advanced
/// over the instruction lines between `i` and the declaration.
proof fn lemma_pass1_label_addr(
    lines: Seq<Seq<char>>,
    i: int,
    addr: u32,
    acc: Map<Seq<char>, u32>,
    k: int,
)
    requires
        0 <= i <= k < lines.len(),
        spec_is_label(lines[k]),
        forall|j: int|
            k < j < lines.len() ==> (spec_is_label(lines[j]) ==> spec_label_name(lines[j])
                != spec_label_name(lines[k])),
    ensures
        spec_pass1(lines, i, addr, acc).contains_key(spec_label_name(lines[k])),
        spec_pass1(lines, i, addr, acc)[spec_label_name(lines[k])] == spec_addr_after(
            addr,
            spec_count_range(lines, i, k),
        ),
    decreases lines.len() - i,
{
    let name = spec_label_name(lines[k]);
    if i == k {
        lemma_pass1_preserves(lines, i + 1, addr, acc.insert(name, addr), name);
    } else {
        if spec_is_blank(lines[i]) {
            lemma_pass1_label_addr(lines, i + 1, addr, acc, k);
        } else if spec_is_label(lines[i]) {
            lemma_pass1_label_addr(
                lines,
                i + 1,
                addr,
                acc.insert(spec_label_name(lines[i]), addr),
                k,
            );
        } else {
            lemma_count_range_nonneg(lines, i + 1, k);
            lemma_pass1_label_addr(lines, i + 1, spec_next_addr(addr), acc, k);
            assert(spec_addr_after(addr, spec_count_range(lines, i, k)) == spec_addr_after(
                spec_next_addr(addr),
                spec_count_range(lines, i + 1, k),
            ));
        }
    }
}

/// Label resolution is address-stable: a label declared at line `k`
/// resolves to four bytes per instruction-emitting line before it,
/// however many label-only or blank lines precede it.
pub proof fn lemma_label_address_stable(lines: Seq<Seq<char>>, k: int)
    requires
        0 <= k < lines.len(),
        spec_is_label(lines[k]),
        forall|j: int|
            k < j < lines.len() ==> (spec_is_label(lines[j]) ==> spec_label_name(lines[j])
                != spec_label_name(lines[k])),
        4 * spec_count_range(lines, 0, k) <= 0xFFFF_FFFF,
    ensures
        spec_label_table(lines).contains_key(spec_label_name(lines[k])),
        spec_label_table(lines)[spec_label_name(lines[k])] == 4 * spec_count_range(lines, 0, k),
{
    lemma_pass1_label_addr(lines, 0, 0, Map::empty(), k);
    lemma_count_range_nonneg(lines, 0, k);
    lemma_addr_after_small(0, spec_count_range(lines, 0, k));
}

/// A count of lines is never negative.
proof fn lemma_count_range_nonneg(lines: Seq<Seq<char>>, i: int, k: int)
    ensures
        spec_count_range(lines, i, k) >= 0,
    decreases k - i,
{
    if i < k {
        lemma_count_range_nonneg(lines, i + 1, k);
    }
}

/// Branch displacement sign correctness: a backward branch in range
/// yields a negative displacement, and its B-format encoding, gathered
/// and sign-extended by the reference decode, reproduces that
/// displacement exactly.
pub proof fn lemma_backward_branch_displacement(
    target: u32,
    cur: u32,
    rs2: u32,
    rs1: u32,
    funct3: u32,
    opcode: u32,
)
    requires
        target < cur,
        cur - target <= 4096,
        (cur - target) % 2 == 0,
        rs2 < 32,
        rs1 < 32,
        funct3 < 8,
        opcode < 0x80,
    ensures
        spec_displacement(target, cur) < 0,
        spec_displacement(target, cur) == target - cur,
        crate::encode::spec_b_imm_decode(
            crate::encode::spec_b_word(spec_displacement(target, cur), rs2, rs1, funct3, opcode),
        ) == spec_displacement(target, cur),
{
    crate::encode::lemma_b_imm_round_trip(spec_displacement(target, cur), rs2, rs1, funct3, opcode);
}

fn make2(a: char, b: char) -> (v: Vec<char>)
    ensures
        v@ == seq![a, b],
{
    let mut v: Vec<char> = Vec::new();
    v.push(a);
    v.push(b);
    proof {
        assert(v@ =~= seq![a, b]);
    }
    v
}

fn make3(a: char, b: char, c: char) -> (v: Vec<char>)
    ensures
        v@ == seq![a, b, c],
{
    let mut v: Vec<char> = Vec::new();
    v.push(a);
    v.push(b);
    v.push(c);
    proof {
        assert(v@ =~= seq![a, b, c]);
    }
    v
}

fn make4(a: char, b: char, c: char, d: char) -> (v: Vec<char>)
    ensures
        v@ == seq![a, b, c, d],
{
    let mut v: Vec<char> = Vec::new();
    v.push(a);
    v.push(b);
    v.push(c);
    v.push(d);
    proof {
        assert(v@ =~= seq![a, b, c, d]);
    }
    v
}

fn is_rtype_mn(m: &[char]) -> (r: bool)
    ensures
        r == spec_is_rtype_mn(m@),
{
    ceq3(m, 'a', 'd', 'd') || ceq3(m, 's', 'u', 'b') || ceq3(m, 'a', 'n', 'd') || ceq2(m, 'o', 'r')
        || ceq3(m, 'x', 'o', 'r') || ceq3(m, 's', 'l', 'l') || ceq3(m, 's', 'r', 'l') || ceq3(
        m,
        's',
        'r',
        'a',
    ) || ceq3(m, 's', 'l', 't') || ceq4(m, 's', 'l', 't', 'u')
}

fn is_itype_mn(m: &[char]) -> (r: bool)
    ensures
        r == spec_is_itype_mn(m@),
{
    ceq4(m, 'a', 'd', 'd', 'i') || ceq4(m, 'a', 'n', 'd', 'i') || ceq3(m, 'o', 'r', 'i') || ceq4(
        m,
        'x',
        'o',
        'r',
        'i',
    ) || ceq4(m, 's', 'l', 'l', 'i') || ceq4(m, 's', 'r', 'l', 'i') || ceq4(m, 's', 'r', 'a', 'i')
        || ceq4(m, 's', 'l', 't', 'i') || ceq5(m, 's', 'l', 't', 'i', 'u') || ceq4(
        m,
        'j',
        'a',
        'l',
        'r',
    )
}

fn is_branch_mn(m: &[char]) -> (r: bool)
    ensures
        r == spec_is_branch_mn(m@),
{
    ceq3(m, 'b', 'e', 'q') || ceq3(m, 'b', 'n', 'e') || ceq3(m, 'b', 'l', 't') || ceq4(
        m,
        'b',
        'l',
        't',
        'u',
    ) || ceq3(m, 'b', 'g', 'e') || ceq4(m, 'b', 'g', 'e', 'u')
}

fn is_load_mn(m: &[char]) -> (r: bool)
    ensures
        r == spec_is_load_mn(m@),
{
    ceq2(m, 'l', 'b') || ceq3(m, 'l', 'b', 'u') || ceq2(m, 'l', 'h') || ceq3(m, 'l', 'h', 'u')
        || ceq2(m, 'l', 'w') || ceq4(m, 'j', 'a', 'l', 'r')
}

fn is_store_mn(m: &[char]) -> (r: bool)
    ensures
        r == spec_is_store_mn(m@),
{
    ceq2(m, 's', 'b') || ceq2(m, 's', 'h') || ceq2(m, 's', 'w')
}

/// Strips the comment from a source line and trims it.
pub fn clean_line(line: &[char]) -> (r: &[char])
    ensures
        r@ == spec_clean_line(line@),
{
    proof {
        lemma_first_idx(line@, '#');
    }
    let h = find_char(line, '#');
    let pre = slice_subrange(line, 0, h);
    proof {
        assert(pre@ =~= line@.take(h as int));
    }
    trim_slice(pre)
}

fn encode_line3(
    line: &[char],
    mn: &[char],
    ops: &Vec<Vec<char>>,
    labels: &LabelTable,
    addr: u32,
) -> (r: Result<u32, AsmError>)
    requires
        ops@.len() == 3,
    ensures
        res_view(r) == spec_encode_line3(
            line@,
            mn@,
            ops@.map_values(|v: Vec<char>| v@),
            labels@,
            addr,
        ),
{
    let ghost sops = ops@.map_values(|v: Vec<char>| v@);
    proof {
        assert(sops[0] == ops@[0]@);
        assert(sops[1] == ops@[1]@);
        assert(sops[2] == ops@[2]@);
    }
    if is_rtype_mn(mn) {
        encode_instruction_chars(mn, ops[0].as_slice(), ops[1].as_slice(), ops[2].as_slice(), -1)
    } else if is_itype_mn(mn) {
        match parse_number_chars(ops[2].as_slice()) {
            Err(e) => Err(e),
            Ok(v) => {
                let x0v = make2('x', '0');
                encode_instruction_chars(
                    mn,
                    ops[0].as_slice(),
                    ops[1].as_slice(),
                    x0v.as_slice(),
                    v,
                )
            },
        }
    } else if is_branch_mn(mn) {
        match labels.get(ops[2].as_slice()) {
            None => Err(AsmError::UndefinedLabel(slice_to_vec(ops[2].as_slice()))),
            Some(a) => {
                let x0v = make2('x', '0');
                encode_instruction_chars(
                    mn,
                    x0v.as_slice(),
                    ops[0].as_slice(),
                    ops[1].as_slice(),
                    displacement(a, addr),
                )
            },
        }
    } else {
        Err(AsmError::UnsupportedOperandShape(slice_to_vec(line)))
    }
}

fn encode_line2(
    line: &[char],
    mn: &[char],
    ops: &Vec<Vec<char>>,
    labels: &LabelTable,
    addr: u32,
) -> (r: Result<u32, AsmError>)
    requires
        ops@.len() == 2,
    ensures
        res_view(r) == spec_encode_line2(
            line@,
            mn@,
            ops@.map_values(|v: Vec<char>| v@),
            labels@,
            addr,
        ),
{
    let ghost sops = ops@.map_values(|v: Vec<char>| v@);
    proof {
        assert(sops[0] == ops@[0]@);
        assert(sops[1] == ops@[1]@);
    }
    if ceq2(mn, 'l', 'i') {
        match parse_number_chars(ops[1].as_slice()) {
            Err(e) => Err(e),
            Ok(v) => {
                let addi = make4('a', 'd', 'd', 'i');
                let x0a = make2('x', '0');
                let x0b = make2('x', '0');
                encode_instruction_chars(
                    addi.as_slice(),
                    ops[0].as_slice(),
                    x0a.as_slice(),
                    x0b.as_slice(),
                    v,
                )
            },
        }
    } else if ceq2(mn, 'm', 'v') {
        let add = make3('a', 'd', 'd');
        let x0v = make2('x', '0');
        encode_instruction_chars(
            add.as_slice(),
            ops[0].as_slice(),
            ops[1].as_slice(),
            x0v.as_slice(),
            -1,
        )
    } else if ceq3(mn, 'n', 'o', 't') {
        let xori = make4('x', 'o', 'r', 'i');
        let x0v = make2('x', '0');
        encode_instruction_chars(
            xori.as_slice(),
            ops[0].as_slice(),
            ops[1].as_slice(),
            x0v.as_slice(),
            -1,
        )
    } else if ceq3(mn, 'n', 'e', 'g') {
        let sub = make3('s', 'u', 'b');
        let x0v = make2('x', '0');
        encode_instruction_chars(
            sub.as_slice(),
            ops[0].as_slice(),
            x0v.as_slice(),
            ops[1].as_slice(),
            -1,
        )
    } else if ceq3(mn, 'j', 'a', 'l') {
        match labels.get(ops[1].as_slice()) {
            None => Err(AsmError::UndefinedLabel(slice_to_vec(ops[1].as_slice()))),
            Some(a) => {
                let jal = make3('j', 'a', 'l');
                let x0a = make2('x', '0');
                let x0b = make2('x', '0');
                encode_instruction_chars(
                    jal.as_slice(),
                    ops[0].as_slice(),
                    x0a.as_slice(),
                    x0b.as_slice(),
                    displacement(a, addr),
                )
            },
        }
    } else if ceq3(mn, 'l', 'u', 'i') || ceq5(mn, 'a', 'u', 'i', 'p', 'c') {
        match parse_number_chars(ops[1].as_slice()) {
            Err(e) => Err(e),
            Ok(v) => {
                let x0a = make2('x', '0');
                let x0b = make2('x', '0');
                encode_instruction_chars(
                    mn,
                    ops[0].as_slice(),
                    x0a.as_slice(),
                    x0b.as_slice(),
                    v,
                )
            },
        }
    } else if is_load_mn(mn) {
        let second = ops[1].as_slice();
        proof {
            lemma_first_idx(second@, '(');
        }
        let p = find_char(second, '(');
        if p == second.len() {
            Err(AsmError::UnsupportedOperandShape(slice_to_vec(line)))
        } else {
            let immtok = slice_subrange(second, 0, p);
            let after = slice_subrange(second, p + 1, second.len());
            proof {
                assert(immtok@ =~= spec_offset_imm(sops[1]));
                assert(after@ =~= sops[1].skip(p as int + 1));
                lemma_first_idx(after@, ')');
            }
            let q = find_char(after, ')');
            let rs1tok = slice_subrange(after, 0, q);
            proof {
                assert(rs1tok@ =~= spec_offset_reg(sops[1]));
            }
            match parse_number_chars(immtok) {
                Err(e) => Err(e),
                Ok(v) => {
                    let x0v = make2('x', '0');
                    encode_instruction_chars(
                        mn,
                        ops[0].as_slice(),
                        rs1tok,
                        x0v.as_slice(),
                        v,
                    )
                },
            }
        }
    } else if is_store_mn(mn) {
        let second = ops[1].as_slice();
        proof {
            lemma_first_idx(second@, '(');
        }
        let p = find_char(second, '(');
        if p == second.len() {
            Err(AsmError::UnsupportedOperandShape(slice_to_vec(line)))
        } else {
            let immtok = slice_subrange(second, 0, p);
            let after = slice_subrange(second, p + 1, second.len());
            proof {
                assert(immtok@ =~= spec_offset_imm(sops[1]));
                assert(after@ =~= sops[1].skip(p as int + 1));
                lemma_first_idx(after@, ')');
            }
            let q = find_char(after, ')');
            let rs1tok = slice_subrange(after, 0, q);
            proof {
                assert(rs1tok@ =~= spec_offset_reg(sops[1]));
            }
            match parse_number_chars(immtok) {
                Err(e) => Err(e),
                Ok(v) => {
                    let x0v = make2('x', '0');
                    encode_instruction_chars(
                        mn,
                        x0v.as_slice(),
                        rs1tok,
                        ops[0].as_slice(),
                        v,
                    )
                },
            }
        }
    } else {
        Err(AsmError::UnsupportedOperandShape(slice_to_vec(line)))
    }
}

fn encode_line1(
    line: &[char],
    mn: &[char],
    ops: &Vec<Vec<char>>,
    labels: &LabelTable,
    addr: u32,
) -> (r: Result<u32, AsmError>)
    requires
        ops@.len() == 1,
    ensures
        res_view(r) == spec_encode_line1(
            line@,
            mn@,
            ops@.map_values(|v: Vec<char>| v@),
            labels@,
            addr,
        ),
{
    let ghost sops = ops@.map_values(|v: Vec<char>| v@);
    proof {
        assert(sops[0] == ops@[0]@);
    }
    if ceq3(mn, 'j', 'a', 'l') {
        match labels.get(ops[0].as_slice()) {
            None => Err(AsmError::UndefinedLabel(slice_to_vec(ops[0].as_slice()))),
            Some(a) => {
                let jal = make3('j', 'a', 'l');
                let ra = make2('r', 'a');
                let x0a = make2('x', '0');
                let x0b = make2('x', '0');
                encode_instruction_chars(
                    jal.as_slice(),
                    ra.as_slice(),
                    x0a.as_slice(),
                    x0b.as_slice(),
                    displacement(a, addr),
                )
            },
        }
    } else if ceq1(mn, 'j') {
        match labels.get(ops[0].as_slice()) {
            None => Err(AsmError::UndefinedLabel(slice_to_vec(ops[0].as_slice()))),
            Some(a) => {
                let jal = make3('j', 'a', 'l');
                let x0a = make2('x', '0');
                let x0b = make2('x', '0');
                let x0c = make2('x', '0');
                encode_instruction_chars(
                    jal.as_slice(),
                    x0a.as_slice(),
                    x0b.as_slice(),
                    x0c.as_slice(),
                    displacement(a, addr),
                )
            },
        }
    } else {
        Err(AsmError::UnsupportedOperandShape(slice_to_vec(line)))
    }
}

/// Classifies and encodes one source line in pass 2: `None` for a
/// blank or label line, else the line's word or its first error.
pub fn encode_line(line: &[char], labels: &LabelTable, addr: u32) -> (r: Option<
    Result<u32, AsmError>,
>)
    ensures
        (r is None) == (spec_encode_line(line@, labels@, addr) is None),
        r matches Some(x) ==> (spec_encode_line(line@, labels@, addr) matches Some(y) && res_view(
            x,
        ) == y),
{
    let cl = clean_line(line);
    if cl.len() == 0 {
        return None;
    }
    if cl[cl.len() - 1] == ':' {
        return None;
    }
    proof {
        lemma_first_idx(cl@, ' ');
    }
    let sp = find_char(cl, ' ');
    if sp == cl.len() {
        return Some(Err(AsmError::UnsupportedOperandShape(slice_to_vec(line))));
    }
    let mn = lower_chars(slice_subrange(cl, 0, sp));
    proof {
        assert(cl@.subrange(0, sp as int) =~= cl@.take(sp as int));
    }
    let rest = slice_subrange(cl, sp + 1, cl.len());
    proof {
        assert(rest@ =~= cl@.skip(sp as int + 1));
    }
    let pieces = split_chars(rest, ',');
    let ghost sops = spec_operands(rest@);
    let mut ops: Vec<Vec<char>> = Vec::new();
    let mut k: usize = 0;
    proof {
        assert(ops@.map_values(|v: Vec<char>| v@) =~= sops.take(0));
    }
    while k < pieces.len()
        invariant
            k <= pieces@.len(),
            pieces@.map_values(|p: Vec<char>| p@) == spec_split(rest@, ','),
            sops == spec_operands(rest@),
            ops@.map_values(|v: Vec<char>| v@) == sops.take(k as int),
        decreases pieces@.len() - k,
    {
        let t = slice_to_vec(trim_slice(pieces[k].as_slice()));
        proof {
            assert(pieces@.map_values(|p: Vec<char>| p@)[k as int] == pieces@[k as int]@);
            assert(sops[k as int] == spec_trim(spec_split(rest@, ',')[k as int]));
            assert(sops.len() == pieces@.len());
        }
        let ghost ops0 = ops@;
        let ghost tv = t@;
        proof {
            assert(tv == sops[k as int]);
        }
        ops.push(t);
        proof {
            ops0.lemma_push_map_commute(|v: Vec<char>| v@, ops@.last());
            assert(ops@ == ops0.push(ops@.last()));
            assert(ops@.map_values(|v: Vec<char>| v@) =~= sops.take(k as int).push(tv));
            assert(sops.take(k as int + 1) =~= sops.take(k as int).push(sops[k as int]));
            assert(ops@.map_values(|v: Vec<char>| v@) =~= sops.take(k as int + 1));
        }
        k = k + 1;
    }
    proof {
        assert(sops.take(sops.len() as int) =~= sops);
    }
    if ops.len() == 3 {
        Some(encode_line3(line, mn.as_slice(), &ops, labels, addr))
    } else if ops.len() == 2 {
        Some(encode_line2(line, mn.as_slice(), &ops, labels, addr))
    } else if ops.len() == 1 {
        Some(encode_line1(line, mn.as_slice(), &ops, labels, addr))
    } else {
        Some(Err(AsmError::UnsupportedOperandShape(slice_to_vec(line))))
    }
}

/// Pass 1: builds the label table of a line sequence, counting four
/// bytes for every instruction line.
pub fn build_label_table(lines: &Vec<Vec<char>>) -> (t: LabelTable)
    ensures
        t@ == spec_label_table(lines@.map_values(|v: Vec<char>| v@)),
{
    let ghost ls = lines@.map_values(|v: Vec<char>| v@);
    let mut t = LabelTable::new();
    let mut addr: u32 = 0;
    let mut i: usize = 0;
    while i < lines.len()
        invariant
            i <= lines@.len(),
            ls == lines@.map_values(|v: Vec<char>| v@),
            spec_label_table(ls) == spec_pass1(ls, i as int, addr, t@),
        decreases lines@.len() - i,
    {
        proof {
            assert(ls[i as int] == lines@[i as int]@);
        }
        let line = lines[i].as_slice();
        let cl = clean_line(line);
        if cl.len() == 0 {
        } else if cl[cl.len() - 1] == ':' {
            proof {
                lemma_first_idx(cl@, ':');
            }
            let ci = find_char(cl, ':');
            let name = slice_to_vec(trim_slice(slice_subrange(cl, 0, ci)));
            proof {
                assert(cl@.subrange(0, ci as int) =~= cl@.take(ci as int));
            }
            t.insert(name, addr);
        } else {
            addr = next_addr(addr);
        }
        i = i + 1;
    }
    t
}

/// Pass 2: encodes a line sequence under a label table, from address
/// zero, stopping at the first error.
pub fn assemble_lines(lines: &Vec<Vec<char>>, labels: &LabelTable) -> (r: Result<Vec<u32>, AsmError>)
    ensures
        res_vec_view(r) == spec_pass2(lines@.map_values(|v: Vec<char>| v@), labels@, 0, 0),
{
    let ghost ls = lines@.map_values(|v: Vec<char>| v@);
    let mut out: Vec<u32> = Vec::new();
    let mut addr: u32 = 0;
    let mut i: usize = 0;
    while i < lines.len()
        invariant
            i <= lines@.len(),
            ls == lines@.map_values(|v: Vec<char>| v@),
            spec_pass2(ls, labels@, 0, 0) == (match spec_pass2(ls, labels@, i as int, addr) {
                Ok(rest) => Ok::<Seq<u32>, SpecAsmError>(out@ + rest),
                Err(e) => Err(e),
            }),
        decreases lines@.len() - i,
    {
        proof {
            assert(ls[i as int] == lines@[i as int]@);
        }
        let ghost out0 = out@;
        match encode_line(lines[i].as_slice(), labels, addr) {
            None => {},
            Some(Err(e)) => {
                return Err(e);
            },
            Some(Ok(w)) => {
                out.push(w);
                addr = next_addr(addr);
                proof {
                    let tail = spec_pass2(ls, labels@, i as int + 1, addr);
                    if tail is Ok {
                        assert(out0 + (seq![w] + tail->Ok_0) =~= out@ + tail->Ok_0);
                    }
                }
            },
        }
        i = i + 1;
    }
    proof {
        assert(out@ + Seq::<u32>::empty() =~= out@);
    }
    Ok(out)
}

/// Assembles a source text: splits it into lines, builds the label
/// table, and encodes every instruction line, or reports the first
/// error.  The error taxonomy and the words produced follow
/// [`spec_assemble`] exactly.
pub fn assemble(src: &str) -> (r: Result<Vec<u32>, AsmError>)
    ensures
        res_vec_view(r) == spec_assemble(src@),
{
    let chars = chars_of(src);
    let lines = split_chars(chars.as_slice(), '\n');
    let labels = build_label_table(&lines);
    assemble_lines(&lines, &labels)
}

} // verus!
