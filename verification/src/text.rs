//! Finalizing the module to text.
//!
//! The textual form of the IR: globals first, then functions, each function
//! with its labeled blocks and one instruction per line. Registers print as
//! `%r<n>`, caller arguments as `%arg<n>`, globals as `@<name>`, float
//! constants as the hexadecimal of their bit pattern, and global byte
//! arrays as hex-escaped bytes.

use vstd::prelude::*;
use crate::ir::{Block, GlobalConst, IRFunction, Instr, Module, Operand};
use crate::types::IRType;

verus! {

/// Relies on `core::iter::Iterator::collect` via `FromIterator` for
/// `String`: collecting an iterator of characters yields a string holding
/// exactly those characters in order.
#[verifier::external_body]
pub(crate) fn chars_to_string(chars: &Vec<char>) -> (r: String)
    ensures
        r@ == chars@,
{
    chars.iter().collect()
}

/// One decimal digit.
pub open spec fn spec_digit_char(d: int) -> char {
    if d == 0 {
        '0'
    } else if d == 1 {
        '1'
    } else if d == 2 {
        '2'
    } else if d == 3 {
        '3'
    } else if d == 4 {
        '4'
    } else if d == 5 {
        '5'
    } else if d == 6 {
        '6'
    } else if d == 7 {
        '7'
    } else if d == 8 {
        '8'
    } else {
        '9'
    }
}

/// The decimal representation of a number, most significant digit first.
pub open spec fn spec_dec_rep(n: nat) -> Seq<char>
    decreases n,
{
    if n < 10 {
        seq![spec_digit_char(n as int)]
    } else {
        spec_dec_rep(n / 10) + seq![spec_digit_char((n % 10) as int)]
    }
}

/// One hexadecimal digit.
pub open spec fn spec_hex_char(d: int) -> char {
    if d < 10 {
        spec_digit_char(d)
    } else if d == 10 {
        'a'
    } else if d == 11 {
        'b'
    } else if d == 12 {
        'c'
    } else if d == 13 {
        'd'
    } else if d == 14 {
        'e'
    } else {
        'f'
    }
}

/// The fixed-width hexadecimal representation of a number, `k` digits.
pub open spec fn spec_hex_rep(n: nat, k: nat) -> Seq<char>
    decreases k,
{
    if k == 0 {
        Seq::empty()
    } else {
        spec_hex_rep(n / 16, (k - 1) as nat) + seq![spec_hex_char((n % 16) as int)]
    }
}

/// The textual form of an IR type.
pub open spec fn spec_type_text(t: IRType) -> Seq<char>
    decreases t,
{
    match t {
        IRType::Int(w) => "i"@ + spec_dec_rep(w as nat),
        IRType::Float(w) => if w == 32 {
            "float"@
        } else if w == 64 {
            "double"@
        } else {
            "fp"@ + spec_dec_rep(w as nat)
        },
        IRType::Pointer(inner) => spec_type_text(*inner) + "*"@,
        IRType::Array(inner, n) => "["@ + spec_dec_rep(n as nat) + " x "@ + spec_type_text(*inner)
            + "]"@,
    }
}

/// The textual form of an operand.
pub open spec fn spec_operand_text(op: Operand) -> Seq<char> {
    match op {
        Operand::Reg(r) => "%r"@ + spec_dec_rep(r as nat),
        Operand::ConstInt { width, value } => spec_type_text(IRType::Int(width)) + " "@
            + spec_int_text(value as int),
        Operand::ConstFloat { width, bits } => spec_type_text(IRType::Float(width)) + " 0x"@
            + spec_hex_rep(bits as nat, 16),
        Operand::GlobalAddr { name } => "@"@ + name@,
        Operand::Param { index } => "%arg"@ + spec_dec_rep(index as nat),
    }
}

/// The textual form of a signed number.
pub open spec fn spec_int_text(v: int) -> Seq<char> {
    if v < 0 {
        "-"@ + spec_dec_rep((-v) as nat)
    } else {
        spec_dec_rep(v as nat)
    }
}

/// The textual form of one instruction, one indented line.
pub open spec fn spec_instr_text(i: Instr) -> Seq<char> {
    match i {
        Instr::Alloca { dest, ty, name } => "  %r"@ + spec_dec_rep(dest as nat) + " = alloca "@
            + spec_type_text(ty) + " ; "@ + name@ + "\n"@,
        Instr::Store { ptr, value } => "  store "@ + spec_operand_text(value) + ", %r"@
            + spec_dec_rep(ptr as nat) + "\n"@,
        Instr::Load { dest, ptr, name } => "  %r"@ + spec_dec_rep(dest as nat) + " = load %r"@
            + spec_dec_rep(ptr as nat) + " ; "@ + name@ + "\n"@,
        Instr::RetVoid => "  ret void\n"@,
    }
}

/// The instructions of a block, in order.
pub open spec fn spec_instrs_text(instrs: Seq<Instr>) -> Seq<char>
    decreases instrs.len(),
{
    if instrs.len() == 0 {
        Seq::empty()
    } else {
        spec_instrs_text(instrs.drop_last()) + spec_instr_text(instrs.last())
    }
}

/// A labeled block.
pub open spec fn spec_block_text(b: Block) -> Seq<char> {
    b.label@ + ":\n"@ + spec_instrs_text(b.instrs@)
}

/// The blocks of a function, in order.
pub open spec fn spec_blocks_text(blocks: Seq<Block>) -> Seq<char>
    decreases blocks.len(),
{
    if blocks.len() == 0 {
        Seq::empty()
    } else {
        spec_blocks_text(blocks.drop_last()) + spec_block_text(blocks.last())
    }
}

/// A signature's parameter types, comma-separated.
pub open spec fn spec_params_text(tys: Seq<IRType>) -> Seq<char>
    decreases tys.len(),
{
    if tys.len() == 0 {
        Seq::empty()
    } else if tys.len() == 1 {
        spec_type_text(tys[0])
    } else {
        spec_params_text(tys.drop_last()) + ", "@ + spec_type_text(tys.last())
    }
}

/// One function: header with return type, name and parameter types, then
/// its blocks.
pub open spec fn spec_fn_text(f: IRFunction) -> Seq<char> {
    "define "@ + (match f.sig.ret {
        None => "void"@,
        Some(t) => spec_type_text(t),
    }) + " @"@ + f.name@ + "("@ + spec_params_text(f.sig.param_types@) + ") {\n"@
        + spec_blocks_text(f.blocks@) + "}\n"@
}

/// The functions of a module, in order.
pub open spec fn spec_fns_text(fns: Seq<IRFunction>) -> Seq<char>
    decreases fns.len(),
{
    if fns.len() == 0 {
        Seq::empty()
    } else {
        spec_fns_text(fns.drop_last()) + spec_fn_text(fns.last())
    }
}

/// A global's bytes, each as a hex escape of two digits.
pub open spec fn spec_bytes_hex(bs: Seq<u8>) -> Seq<char>
    decreases bs.len(),
{
    if bs.len() == 0 {
        Seq::empty()
    } else {
        spec_bytes_hex(bs.drop_last()) + seq!['\\'] + spec_hex_rep(bs.last() as nat, 2)
    }
}

/// One global constant: a named, constant byte array.
pub open spec fn spec_global_text(g: GlobalConst) -> Seq<char> {
    "@"@ + g.name@ + " = constant ["@ + spec_dec_rep(g.bytes@.len() as nat) + " x i8] c\""@
        + spec_bytes_hex(g.bytes@) + "\"\n"@
}

/// The globals of a module, in order.
pub open spec fn spec_globals_text(gs: Seq<GlobalConst>) -> Seq<char>
    decreases gs.len(),
{
    if gs.len() == 0 {
        Seq::empty()
    } else {
        spec_globals_text(gs.drop_last()) + spec_global_text(gs.last())
    }
}

/// The whole module: globals, then functions.
pub open spec fn spec_module_text(m: Module) -> Seq<char> {
    spec_globals_text(m.globals@) + spec_fns_text(m.functions@)
}

/// Appends a string's characters.
fn push_str_chars(out: &mut Vec<char>, s: &str)
    ensures
        final(out)@ == old(out)@ + s@,
{
    let n = s.unicode_len();
    let mut i: usize = 0;
    while i < n
        invariant
            i <= n,
            n == s@.len(),
            out@ == old(out)@ + s@.take(i as int),
        decreases n - i,
    {
        let c = s.get_char(i);
        out.push(c);
        proof {
            assert(out@ =~= old(out)@ + s@.take(i as int + 1));
        }
        i = i + 1;
    }
    proof {
        assert(out@ =~= old(out)@ + s@);
    }
}

/// Appends one decimal digit.
fn push_digit(out: &mut Vec<char>, d: u64)
    requires
        d < 10,
    ensures
        final(out)@ == old(out)@ + seq![spec_digit_char(d as int)],
{
    let c = match d {
        0 => '0',
        1 => '1',
        2 => '2',
        3 => '3',
        4 => '4',
        5 => '5',
        6 => '6',
        7 => '7',
        8 => '8',
        _ => '9',
    };
    out.push(c);
    proof {
        assert(out@ =~= old(out)@ + seq![spec_digit_char(d as int)]);
    }
}

/// Appends a number in decimal.
fn push_decimal(out: &mut Vec<char>, n: u64)
    ensures
        final(out)@ == old(out)@ + spec_dec_rep(n as nat),
    decreases n,
{
    if n >= 10 {
        push_decimal(out, n / 10);
    }
    push_digit(out, n % 10);
    proof {
        if n >= 10 {
            assert(out@ =~= old(out)@ + spec_dec_rep(n as nat));
        }
    }
}

/// Appends a number in fixed-width hexadecimal, `k` digits.
fn push_hex(out: &mut Vec<char>, n: u64, k: usize)
    ensures
        final(out)@ == old(out)@ + spec_hex_rep(n as nat, k as nat),
    decreases k,
{
    if k > 0 {
        push_hex(out, n / 16, k - 1);
        let d = n % 16;
        let c = if d < 10 {
            match d {
                0 => '0',
                1 => '1',
                2 => '2',
                3 => '3',
                4 => '4',
                5 => '5',
                6 => '6',
                7 => '7',
                8 => '8',
                _ => '9',
            }
        } else {
            match d {
                10 => 'a',
                11 => 'b',
                12 => 'c',
                13 => 'd',
                14 => 'e',
                _ => 'f',
            }
        };
        out.push(c);
        proof {
            assert(c == spec_hex_char((n % 16) as int));
            assert(out@ =~= old(out)@ + spec_hex_rep(n as nat, k as nat));
        }
    }
}

/// Appends an IR type's text.
fn push_type_text(out: &mut Vec<char>, t: &IRType)
    ensures
        final(out)@ == old(out)@ + spec_type_text(*t),
    decreases *t,
{
    match t {
        IRType::Int(w) => {
            push_str_chars(out, "i");
            push_decimal(out, *w as u64);
        },
        IRType::Float(w) => {
            if *w == 32 {
                push_str_chars(out, "float");
            } else if *w == 64 {
                push_str_chars(out, "double");
            } else {
                push_str_chars(out, "fp");
                push_decimal(out, *w as u64);
            }
        },
        IRType::Pointer(inner) => {
            push_type_text(out, inner);
            push_str_chars(out, "*");
        },
        IRType::Array(inner, n) => {
            push_str_chars(out, "[");
            push_decimal(out, *n as u64);
            push_str_chars(out, " x ");
            push_type_text(out, inner);
            push_str_chars(out, "]");
        },
    }
    proof {
        assert(out@ =~= old(out)@ + spec_type_text(*t));
    }
}

/// Appends a signed number's text.
fn push_int_text(out: &mut Vec<char>, v: i64)
    ensures
        final(out)@ == old(out)@ + spec_int_text(v as int),
{
    if v < 0 {
        push_str_chars(out, "-");
        let mag: u64 = if v == i64::MIN {
            9223372036854775808u64
        } else {
            (-v) as u64
        };
        proof {
            assert(mag as nat == (-(v as int)) as nat);
        }
        push_decimal(out, mag);
        proof {
            assert(out@ =~= old(out)@ + spec_int_text(v as int));
        }
    } else {
        push_decimal(out, v as u64);
    }
}

/// Appends an operand's text.
fn push_operand_text(out: &mut Vec<char>, op: &Operand)
    ensures
        final(out)@ == old(out)@ + spec_operand_text(*op),
{
    match op {
        Operand::Reg(r) => {
            push_str_chars(out, "%r");
            push_decimal(out, *r as u64);
        },
        Operand::ConstInt { width, value } => {
            push_str_chars(out, "i");
            push_decimal(out, *width as u64);
            push_str_chars(out, " ");
            push_int_text(out, *value);
        },
        Operand::ConstFloat { width, bits } => {
            if *width == 32 {
                push_str_chars(out, "float");
            } else if *width == 64 {
                push_str_chars(out, "double");
            } else {
                push_str_chars(out, "fp");
                push_decimal(out, *width as u64);
            }
            push_str_chars(out, " 0x");
            push_hex(out, *bits, 16);
        },
        Operand::GlobalAddr { name } => {
            push_str_chars(out, "@");
            push_str_chars(out, name.as_str());
        },
        Operand::Param { index } => {
            push_str_chars(out, "%arg");
            push_decimal(out, *index as u64);
        },
    }
    proof {
        assert(out@ =~= old(out)@ + spec_operand_text(*op));
    }
}

/// Appends one instruction's line.
fn push_instr_text(out: &mut Vec<char>, i: &Instr)
    ensures
        final(out)@ == old(out)@ + spec_instr_text(*i),
{
    match i {
        Instr::Alloca { dest, ty, name } => {
            push_str_chars(out, "  %r");
            push_decimal(out, *dest as u64);
            push_str_chars(out, " = alloca ");
            push_type_text(out, ty);
            push_str_chars(out, " ; ");
            push_str_chars(out, name.as_str());
            push_str_chars(out, "\n");
        },
        Instr::Store { ptr, value } => {
            push_str_chars(out, "  store ");
            push_operand_text(out, value);
            push_str_chars(out, ", %r");
            push_decimal(out, *ptr as u64);
            push_str_chars(out, "\n");
        },
        Instr::Load { dest, ptr, name } => {
            push_str_chars(out, "  %r");
            push_decimal(out, *dest as u64);
            push_str_chars(out, " = load %r");
            push_decimal(out, *ptr as u64);
            push_str_chars(out, " ; ");
            push_str_chars(out, name.as_str());
            push_str_chars(out, "\n");
        },
        Instr::RetVoid => {
            push_str_chars(out, "  ret void\n");
        },
    }
    proof {
        assert(out@ =~= old(out)@ + spec_instr_text(*i));
    }
}

/// Appends one block: label line, then its instructions.
fn push_block_text(out: &mut Vec<char>, b: &Block)
    ensures
        final(out)@ == old(out)@ + spec_block_text(*b),
{
    push_str_chars(out, b.label.as_str());
    push_str_chars(out, ":\n");
    let n = b.instrs.len();
    let mut i: usize = 0;
    proof {
        assert(b.instrs@.take(0) =~= Seq::<Instr>::empty());
        assert(out@ =~= old(out)@ + b.label@ + ":\n"@ + spec_instrs_text(b.instrs@.take(0)));
    }
    while i < n
        invariant
            i <= n,
            n == b.instrs@.len(),
            out@ == old(out)@ + b.label@ + ":\n"@ + spec_instrs_text(b.instrs@.take(i as int)),
        decreases n - i,
    {
        proof {
            assert(b.instrs@.take(i as int + 1).drop_last() =~= b.instrs@.take(i as int));
            assert(b.instrs@.take(i as int + 1).last() == b.instrs@[i as int]);
        }
        push_instr_text(out, &b.instrs[i]);
        proof {
            assert(out@ =~= old(out)@ + b.label@ + ":\n"@ + spec_instrs_text(
                b.instrs@.take(i as int + 1),
            ));
        }
        i = i + 1;
    }
    proof {
        assert(b.instrs@.take(n as int) =~= b.instrs@);
        assert(out@ =~= old(out)@ + spec_block_text(*b));
    }
}

/// Appends one function: header, blocks, closing brace.
fn push_fn_text(out: &mut Vec<char>, f: &IRFunction)
    ensures
        final(out)@ == old(out)@ + spec_fn_text(*f),
{
    push_str_chars(out, "define ");
    match &f.sig.ret {
        None => push_str_chars(out, "void"),
        Some(t) => push_type_text(out, t),
    }
    push_str_chars(out, " @");
    push_str_chars(out, f.name.as_str());
    push_str_chars(out, "(");
    let ghost header = out@;
    let n = f.sig.param_types.len();
    let mut i: usize = 0;
    proof {
        assert(f.sig.param_types@.take(0) =~= Seq::<IRType>::empty());
        assert(out@ =~= header + spec_params_text(f.sig.param_types@.take(0)));
    }
    while i < n
        invariant
            i <= n,
            n == f.sig.param_types@.len(),
            out@ == header + spec_params_text(f.sig.param_types@.take(i as int)),
        decreases n - i,
    {
        proof {
            assert(f.sig.param_types@.take(i as int + 1).drop_last() =~= f.sig.param_types@.take(
                i as int,
            ));
            assert(f.sig.param_types@.take(i as int + 1).last() == f.sig.param_types@[i as int]);
        }
        if i > 0 {
            push_str_chars(out, ", ");
        }
        push_type_text(out, &f.sig.param_types[i]);
        proof {
            assert(out@ =~= header + spec_params_text(f.sig.param_types@.take(i as int + 1)));
        }
        i = i + 1;
    }
    proof {
        assert(f.sig.param_types@.take(n as int) =~= f.sig.param_types@);
    }
    push_str_chars(out, ") {\n");
    let ghost opened = out@;
    let nb = f.blocks.len();
    let mut j: usize = 0;
    proof {
        assert(f.blocks@.take(0) =~= Seq::<Block>::empty());
        assert(out@ =~= opened + spec_blocks_text(f.blocks@.take(0)));
    }
    while j < nb
        invariant
            j <= nb,
            nb == f.blocks@.len(),
            out@ == opened + spec_blocks_text(f.blocks@.take(j as int)),
        decreases nb - j,
    {
        proof {
            assert(f.blocks@.take(j as int + 1).drop_last() =~= f.blocks@.take(j as int));
            assert(f.blocks@.take(j as int + 1).last() == f.blocks@[j as int]);
        }
        push_block_text(out, &f.blocks[j]);
        proof {
            assert(out@ =~= opened + spec_blocks_text(f.blocks@.take(j as int + 1)));
        }
        j = j + 1;
    }
    proof {
        assert(f.blocks@.take(nb as int) =~= f.blocks@);
    }
    push_str_chars(out, "}\n");
    proof {
        assert(out@ =~= old(out)@ + spec_fn_text(*f));
    }
}

/// Appends one global constant's line.
fn push_global_text(out: &mut Vec<char>, g: &GlobalConst)
    ensures
        final(out)@ == old(out)@ + spec_global_text(*g),
{
    push_str_chars(out, "@");
    push_str_chars(out, g.name.as_str());
    push_str_chars(out, " = constant [");
    push_decimal(out, g.bytes.len() as u64);
    push_str_chars(out, " x i8] c\"");
    let ghost head = out@;
    let n = g.bytes.len();
    let mut i: usize = 0;
    proof {
        assert(g.bytes@.take(0) =~= Seq::<u8>::empty());
        assert(out@ =~= head + spec_bytes_hex(g.bytes@.take(0)));
    }
    while i < n
        invariant
            i <= n,
            n == g.bytes@.len(),
            out@ == head + spec_bytes_hex(g.bytes@.take(i as int)),
        decreases n - i,
    {
        proof {
            assert(g.bytes@.take(i as int + 1).drop_last() =~= g.bytes@.take(i as int));
            assert(g.bytes@.take(i as int + 1).last() == g.bytes@[i as int]);
        }
        out.push('\\');
        push_hex(out, g.bytes[i] as u64, 2);
        proof {
            assert(out@ =~= head + spec_bytes_hex(g.bytes@.take(i as int + 1)));
        }
        i = i + 1;
    }
    proof {
        assert(g.bytes@.take(n as int) =~= g.bytes@);
    }
    push_str_chars(out, "\"\n");
    proof {
        assert(out@ =~= old(out)@ + spec_global_text(*g));
    }
}

impl Module {
    /// Finalizes the module to text: globals first, then functions, the
    /// one serialization the driver invokes once lowering completes.
    pub fn to_text(&self) -> (r: String)
        ensures
            r@ == spec_module_text(*self),
    {
        let mut out: Vec<char> = Vec::new();
        let n = self.globals.len();
        let mut i: usize = 0;
        proof {
            assert(self.globals@.take(0) =~= Seq::<GlobalConst>::empty());
        }
        while i < n
            invariant
                i <= n,
                n == self.globals@.len(),
                out@ == spec_globals_text(self.globals@.take(i as int)),
            decreases n - i,
        {
            proof {
                assert(self.globals@.take(i as int + 1).drop_last() =~= self.globals@.take(
                    i as int,
                ));
                assert(self.globals@.take(i as int + 1).last() == self.globals@[i as int]);
            }
            push_global_text(&mut out, &self.globals[i]);
            proof {
                assert(out@ =~= spec_globals_text(self.globals@.take(i as int + 1)));
            }
            i = i + 1;
        }
        proof {
            assert(self.globals@.take(n as int) =~= self.globals@);
        }
        let nf = self.functions.len();
        let mut j: usize = 0;
        proof {
            assert(self.functions@.take(0) =~= Seq::<IRFunction>::empty());
            assert(out@ =~= spec_globals_text(self.globals@) + spec_fns_text(
                self.functions@.take(0),
            ));
        }
        while j < nf
            invariant
                j <= nf,
                nf == self.functions@.len(),
                out@ == spec_globals_text(self.globals@) + spec_fns_text(
                    self.functions@.take(j as int),
                ),
            decreases nf - j,
        {
            proof {
                assert(self.functions@.take(j as int + 1).drop_last() =~= self.functions@.take(
                    j as int,
                ));
                assert(self.functions@.take(j as int + 1).last() == self.functions@[j as int]);
            }
            push_fn_text(&mut out, &self.functions[j]);
            proof {
                assert(out@ =~= spec_globals_text(self.globals@) + spec_fns_text(
                    self.functions@.take(j as int + 1),
                ));
            }
            j = j + 1;
        }
        proof {
            assert(self.functions@.take(nf as int) =~= self.functions@);
            assert(out@ =~= spec_module_text(*self));
        }
        chars_to_string(&out)
    }
}

} // verus!
