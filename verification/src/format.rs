//! The format string translator.
//!
//! Rewrites a user-authored interpolation string with `{}` placeholders into
//! a `printf`-style format string for the backend, choosing one conversion
//! specifier per placeholder from the IR type of the corresponding
//! positional argument: floats print as `%f`, integers as `%d`, pointers to
//! 8-bit integers (text) as `%s`, any other pointer as `%ld`, and anything
//! else falls back to `%d`. Every other character is copied through
//! unchanged, a lone `{` included; placeholders beyond the supplied argument
//! types are left as literal text.

use vstd::prelude::*;
use crate::text::chars_to_string;
use crate::types::IRType;

verus! {

/// The conversion specifier chosen for one argument type.
pub open spec fn spec_format_specifier(t: IRType) -> Seq<char> {
    match t {
        IRType::Float(_) => seq!['%', 'f'],
        IRType::Int(_) => seq!['%', 'd'],
        IRType::Pointer(inner) => if *inner == IRType::Int(8) {
            seq!['%', 's']
        } else {
            seq!['%', 'l', 'd']
        },
        IRType::Array(_, _) => seq!['%', 'd'],
    }
}

/// The translated format string: each `{}` with an argument type left is
/// replaced by that type's specifier; every other character, and every
/// placeholder beyond the argument types, is copied through.
pub open spec fn spec_wave_format(f: Seq<char>, args: Seq<IRType>) -> Seq<char>
    decreases f.len(),
{
    if f.len() == 0 {
        Seq::empty()
    } else if f.len() >= 2 && f[0] == '{' && f[1] == '}' && args.len() > 0 {
        spec_format_specifier(args[0]) + spec_wave_format(f.skip(2), args.drop_first())
    } else {
        seq![f[0]] + spec_wave_format(f.skip(1), args)
    }
}

/// Translates an interpolation string into a backend-native format string,
/// consuming the argument types positionally, one per `{}` placeholder.
/// Pure and total: no input faults.
pub fn wave_format_to_c(format: &str, arg_types: &[IRType]) -> (r: String)
    ensures
        r@ == spec_wave_format(format@, arg_types@),
{
    let n = format.unicode_len();
    let mut out: Vec<char> = Vec::new();
    let mut i: usize = 0;
    let mut arg_index: usize = 0;
    proof {
        assert(format@.skip(0) =~= format@);
        assert(arg_types@.skip(0) =~= arg_types@);
    }
    while i < n
        invariant
            i <= n,
            n == format@.len(),
            arg_index <= arg_types@.len(),
            spec_wave_format(format@, arg_types@) == out@ + spec_wave_format(
                format@.skip(i as int),
                arg_types@.skip(arg_index as int),
            ),
        decreases n - i,
    {
        let ghost rest = format@.skip(i as int);
        let ghost rest_args = arg_types@.skip(arg_index as int);
        proof {
            assert(rest[0] == format@[i as int]);
        }
        let c = format.get_char(i);
        let mut handled = false;
        if c == '{' && i + 1 < n && arg_index < arg_types.len() {
            proof {
                assert(rest[1] == format@[i as int + 1]);
                assert(rest_args[0] == arg_types@[arg_index as int]);
            }
            if format.get_char(i + 1) == '}' {
                match &arg_types[arg_index] {
                    IRType::Float(_) => {
                        out.push('%');
                        out.push('f');
                    },
                    IRType::Int(_) => {
                        out.push('%');
                        out.push('d');
                    },
                    IRType::Pointer(inner) => {
                        let is_text = match &**inner {
                            IRType::Int(w) => *w == 8,
                            _ => false,
                        };
                        if is_text {
                            out.push('%');
                            out.push('s');
                        } else {
                            out.push('%');
                            out.push('l');
                            out.push('d');
                        }
                    },
                    IRType::Array(_, _) => {
                        out.push('%');
                        out.push('d');
                    },
                }
                proof {
                    assert(rest.skip(2) =~= format@.skip(i as int + 2));
                    assert(rest.drop_first().drop_first() =~= rest.skip(2));
                    assert(rest_args.drop_first() =~= arg_types@.skip(arg_index as int + 1));
                    assert(spec_wave_format(rest, rest_args) == spec_format_specifier(
                        rest_args[0],
                    ) + spec_wave_format(
                        format@.skip(i as int + 2),
                        arg_types@.skip(arg_index as int + 1),
                    ));
                }
                i = i + 2;
                arg_index = arg_index + 1;
                handled = true;
            }
        }
        if !handled {
            proof {
                assert(spec_wave_format(rest, rest_args) == seq![rest[0]] + spec_wave_format(
                    rest.skip(1),
                    rest_args,
                ));
                assert(rest.skip(1) =~= format@.skip(i as int + 1));
            }
            out.push(c);
            i = i + 1;
        }
    }
    proof {
        assert(format@.skip(n as int).len() == 0);
        assert(out@ + spec_wave_format(format@.skip(n as int), arg_types@.skip(arg_index as int))
            =~= out@);
    }
    chars_to_string(&out)
}

} // verus!
