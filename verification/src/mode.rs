//! Output-mode selection: explicit flags first, then whether standard
//! output is a terminal.

use vstd::prelude::*;

verus! {

/// Interactive operator output vs machine-readable agent output.
#[derive(Debug, Clone, Copy, PartialEq, Eq, Structural)]
pub enum Mode {
    Operator,
    Agent,
}

/// The mode the flags and terminal state select: a JSON output request
/// always wins, an interactive request beats terminal detection, and a
/// terminal defaults to operator output.
pub open spec fn spec_mode(output_json: bool, interactive: bool, stdout_is_terminal: bool)
    -> Mode {
    if output_json {
        Mode::Agent
    } else if interactive {
        Mode::Operator
    } else if stdout_is_terminal {
        Mode::Operator
    } else {
        Mode::Agent
    }
}

/// Select the output mode from explicit flags and the terminal state.
pub fn detect_mode_with_terminal(output_json: bool, interactive: bool, stdout_is_terminal: bool)
    -> (r: Mode)
    ensures
        r == spec_mode(output_json, interactive, stdout_is_terminal),
{
    if output_json {
        return Mode::Agent;
    }
    if interactive {
        return Mode::Operator;
    }
    if stdout_is_terminal {
        Mode::Operator
    } else {
        Mode::Agent
    }
}

/// The ASCII-lowercase fold of one byte.
pub open spec fn lower_byte(b: u8) -> u8 {
    if 0x41 <= b <= 0x5a {
        (b + 0x20) as u8
    } else {
        b
    }
}

/// Case-insensitive ASCII equality over byte strings.
pub open spec fn icase_eq(a: Seq<u8>, b: Seq<u8>) -> bool {
    a.map_values(|x: u8| lower_byte(x)) == b.map_values(|x: u8| lower_byte(x))
}

/// Compare two strings ignoring ASCII case.
fn eq_icase(a: &str, b: &str) -> (r: bool)
    ensures
        r == icase_eq(
            vstd::utf8::encode_utf8(a@),
            vstd::utf8::encode_utf8(b@),
        ),
{
    let ab = a.as_bytes();
    let bb = b.as_bytes();
    proof {
        assert(ab@ == vstd::utf8::encode_utf8(a@));
        assert(bb@ == vstd::utf8::encode_utf8(b@));
    }
    if ab.len() != bb.len() {
        proof {
            assert(ab@.map_values(|x: u8| lower_byte(x)).len() == ab@.len());
            assert(bb@.map_values(|x: u8| lower_byte(x)).len() == bb@.len());
        }
        return false;
    }
    let mut i: usize = 0;
    while i < ab.len()
        invariant
            0 <= i <= ab@.len(),
            ab@.len() == bb@.len(),
            ab@ == vstd::utf8::encode_utf8(a@),
            bb@ == vstd::utf8::encode_utf8(b@),
            forall|j: int| 0 <= j < i ==> lower_byte(ab@[j]) == lower_byte(bb@[j]),
        decreases ab@.len() - i,
    {
        let ca = ab[i];
        let cb = bb[i];
        let la = if 0x41 <= ca && ca <= 0x5a {
            ca + 0x20
        } else {
            ca
        };
        let lb = if 0x41 <= cb && cb <= 0x5a {
            cb + 0x20
        } else {
            cb
        };
        if la != lb {
            proof {
                assert(ab@.map_values(|x: u8| lower_byte(x))[i as int] != bb@.map_values(
                    |x: u8| lower_byte(x),
                )[i as int]);
            }
            return false;
        }
        i = i + 1;
    }
    proof {
        assert(ab@.map_values(|x: u8| lower_byte(x)) =~= bb@.map_values(|x: u8| lower_byte(x)));
    }
    true
}

/// The output-json and interactive flags a raw argument list carries, from
/// position `i` on: `--interactive`, `--output json`, and `--output=json`
/// in any ASCII case for the value.
pub open spec fn spec_raw_flags(args: Seq<String>, i: int) -> (bool, bool)
    decreases args.len() + 2 - i when 0 <= i
{
    if i >= args.len() {
        (false, false)
    } else if args[i]@ == "--interactive"@ {
        let rest = spec_raw_flags(args, i + 1);
        (rest.0, true)
    } else if args[i]@ == "--output"@ {
        if i + 1 < args.len() && icase_eq(
            vstd::utf8::encode_utf8(args[i + 1]@),
            vstd::utf8::encode_utf8("json"@),
        ) {
            let rest = spec_raw_flags(args, i + 2);
            (true, rest.1)
        } else {
            spec_raw_flags(args, i + 2)
        }
    } else if icase_eq(
        vstd::utf8::encode_utf8(args[i]@),
        vstd::utf8::encode_utf8("--output=json"@),
    ) {
        let rest = spec_raw_flags(args, i + 1);
        (true, rest.1)
    } else {
        spec_raw_flags(args, i + 1)
    }
}

/// Detect the output mode from a raw argument list, before any structured
/// parsing, given the terminal state of standard output.
pub fn detect_mode_from_raw_args(args: &Vec<String>, stdout_is_terminal: bool) -> (r: Mode)
    ensures
        r == spec_mode(
            spec_raw_flags(args@, 1).0,
            spec_raw_flags(args@, 1).1,
            stdout_is_terminal,
        ),
{
    let mut output_json = false;
    let mut interactive = false;
    let mut index: usize = 1;
    while index < args.len()
        invariant
            1 <= index,
            ({
                let whole = spec_raw_flags(args@, 1);
                let rest = spec_raw_flags(args@, index as int);
                whole.0 == (output_json || rest.0) && whole.1 == (interactive || rest.1)
            }),
        decreases args@.len() + 2 - index,
    {
        let arg = &args[index];
        if crate::text::str_eq(arg.as_str(), "--interactive") {
            interactive = true;
            index = index + 1;
            continue;
        }
        if crate::text::str_eq(arg.as_str(), "--output") {
            let ghost i0 = index as int;
            if index + 1 < args.len() {
                if eq_icase(args[index + 1].as_str(), "json") {
                    output_json = true;
                }
                index = index + 2;
            } else {
                proof {
                    assert(spec_raw_flags(args@, i0) == spec_raw_flags(args@, i0 + 2));
                    assert(spec_raw_flags(args@, i0 + 2) == (false, false));
                    assert(spec_raw_flags(args@, args@.len() as int) == (false, false));
                }
                index = args.len();
            }
            continue;
        }
        if eq_icase(arg.as_str(), "--output=json") {
            output_json = true;
            index = index + 1;
            continue;
        }
        index = index + 1;
    }
    proof {
        let whole = spec_raw_flags(args@, 1);
        assert(spec_raw_flags(args@, index as int) == (false, false));
        assert(whole.0 == output_json && whole.1 == interactive);
    }
    detect_mode_with_terminal(output_json, interactive, stdout_is_terminal)
}

/// The operation name a raw argument list selects, defaulting to
/// validation.
pub open spec fn spec_operation(args: Seq<String>, i: int) -> Seq<char>
    decreases args.len() + 1 - i when 0 <= i
{
    if i >= args.len() {
        "validate"@
    } else if args[i]@ == "validate"@ {
        "validate"@
    } else if args[i]@ == "construct"@ {
        "construct"@
    } else if args[i]@ == "generate"@ {
        "generate"@
    } else if args[i]@ == "receipt"@ {
        "receipt"@
    } else {
        spec_operation(args, i + 1)
    }
}

/// Infer the requested operation from a raw argument list.
pub fn infer_operation_from_raw_args(args: &Vec<String>) -> (r: &'static str)
    ensures
        r@ == spec_operation(args@, 1),
{
    let mut i: usize = 1;
    while i < args.len()
        invariant
            1 <= i,
            spec_operation(args@, 1) == spec_operation(args@, i as int),
        decreases args@.len() + 1 - i,
    {
        let a = args[i].as_str();
        if crate::text::str_eq(a, "validate") {
            return "validate";
        }
        if crate::text::str_eq(a, "construct") {
            return "construct";
        }
        if crate::text::str_eq(a, "generate") {
            return "generate";
        }
        if crate::text::str_eq(a, "receipt") {
            return "receipt";
        }
        i = i + 1;
    }
    "validate"
}

} // verus!
