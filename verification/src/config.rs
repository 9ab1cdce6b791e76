//! Startup configuration: backend mode and listening port from the argument
//! list, and the eager hex validation of a configured default selector.
//!
//! Recognized options, each consuming the argument after it: `--mode` with
//! `demo`, `external` or `native`; `--bin <path>`, selecting the external
//! backend; `--port <number>`, where an unparsable number falls back to a
//! different default than the usual one; and `--rom <hex>`, which supplies
//! the memory-hard backend's default selector and forces that mode. Unknown
//! arguments are skipped; an option that is the last argument ends parsing.

use vstd::prelude::*;
use vstd::slice::slice_to_vec;
use vstd::string::StringSliceAdditionalSpecFns;
use crate::bytes::bytes_eq;
use crate::hexcode::{hex_decode, hex_ok, first_bad_digit, HexError};

verus! {

/// The port used when none is configured.
pub const DEFAULT_PORT: u16 = 4002;

/// The port used when a configured one does not parse.
pub const FALLBACK_PORT: u16 = 4000;

/// The executable the external backend runs when `--mode external` names
/// none.
pub open spec fn default_bin_spec() -> Seq<u8> {
    "ashmaize-cli".spec_bytes()
}

/// The backend variant, fixed for the life of the process.
pub enum Mode {
    /// The built-in two-step hash composition.
    Demo,
    /// One subprocess per request, `bin` with the preimage as its argument.
    External { bin: Vec<u8> },
    /// The memory-hard scheme, with an optional default selector.
    Native { rom: Option<Vec<u8>> },
}

/// The mathematical shadow of `Mode`.
pub enum ModeModel {
    Demo,
    External { bin: Seq<u8> },
    Native { rom: Option<Seq<u8>> },
}

impl View for Mode {
    type V = ModeModel;

    open spec fn view(&self) -> ModeModel {
        match self {
            Mode::Demo => ModeModel::Demo,
            Mode::External { bin } => ModeModel::External { bin: bin@ },
            Mode::Native { rom } => ModeModel::Native {
                rom: match rom {
                    Some(r) => Some(r@),
                    None => None,
                },
            },
        }
    }
}

/// What startup settles on: a backend and a listening port.
pub struct Config {
    pub mode: Mode,
    pub port: u16,
}

/// The mathematical shadow of `Config`.
pub struct ConfigModel {
    pub mode: ModeModel,
    pub port: u16,
}

impl View for Config {
    type V = ConfigModel;

    open spec fn view(&self) -> ConfigModel {
        ConfigModel { mode: self.mode@, port: self.port }
    }
}

/// An ASCII decimal digit.
pub open spec fn is_digit(b: u8) -> bool {
    48 <= b && b <= 57
}

/// Every byte of the sequence is a decimal digit.
pub open spec fn all_digits(s: Seq<u8>) -> bool {
    forall|i: int| 0 <= i < s.len() ==> is_digit(s[i])
}

/// The number a digit sequence denotes, most significant digit first.
pub open spec fn digits_val(s: Seq<u8>) -> int
    decreases s.len(),
{
    if s.len() == 0 {
        0
    } else {
        digits_val(s.drop_last()) * 10 + (s[s.len() - 1] - 48)
    }
}

/// The digits of a port option, a single leading `+` allowed.
pub open spec fn port_digits(s: Seq<u8>) -> Seq<u8> {
    if s.len() > 0 && s[0] == 43 {
        s.drop_first()
    } else {
        s
    }
}

/// Whether the text parses as a 16-bit port number.
pub open spec fn port_ok(s: Seq<u8>) -> bool {
    let t = port_digits(s);
    t.len() > 0 && all_digits(t) && digits_val(t) <= 65535
}

/// The port a `--port` value selects: its number, or the fallback when it
/// does not parse as one.
pub open spec fn port_spec(s: Seq<u8>) -> u16 {
    if port_ok(s) {
        digits_val(port_digits(s)) as u16
    } else {
        FALLBACK_PORT
    }
}

/// A digit sequence denotes a nonnegative number.
proof fn lemma_digits_val_nonneg(s: Seq<u8>)
    requires
        all_digits(s),
    ensures
        digits_val(s) >= 0,
    decreases s.len(),
{
    if s.len() > 0 {
        assert(all_digits(s.drop_last())) by {
            assert(forall|i: int| 0 <= i < s.len() - 1 ==> s.drop_last()[i] == s[i]);
        }
        lemma_digits_val_nonneg(s.drop_last());
    }
}

/// Extending a digit sequence never shrinks the number it denotes.
proof fn lemma_digits_val_mono(s: Seq<u8>, i: int)
    requires
        all_digits(s),
        0 <= i <= s.len(),
    ensures
        digits_val(s) >= digits_val(s.take(i)),
    decreases s.len() - i,
{
    if i < s.len() {
        lemma_digits_val_mono(s, i + 1);
        assert(s.take(i + 1).drop_last() =~= s.take(i));
        assert(all_digits(s.take(i))) by {
            assert(forall|j: int| 0 <= j < i ==> s.take(i)[j] == s[j]);
        }
        lemma_digits_val_nonneg(s.take(i));
        assert(digits_val(s.take(i + 1)) == digits_val(s.take(i)) * 10 + (s[i] - 48));
    } else {
        assert(s.take(i) =~= s);
    }
}

/// Parses a port number as the original option does: decimal with an
/// optional leading `+`, anything else — or anything above 65535 — falling
/// back to `FALLBACK_PORT`.
pub fn parse_port(s: &[u8]) -> (r: u16)
    ensures
        r == port_spec(s@),
{
    let start: usize = if s.len() > 0 && s[0] == 43 {
        1
    } else {
        0
    };
    let ghost t = port_digits(s@);
    proof {
        assert(t =~= s@.skip(start as int));
    }
    if s.len() == start {
        return FALLBACK_PORT;
    }
    let mut v: u64 = 0;
    let mut i: usize = start;
    while i < s.len()
        invariant
            start <= i <= s@.len(),
            start <= 1,
            t == port_digits(s@),
            t == s@.skip(start as int),
            all_digits(t.take(i - start)),
            v == digits_val(t.take(i - start)),
            v <= 65535,
        decreases s@.len() - i,
    {
        let b = s[i];
        if b < 48 || b > 57 {
            proof {
                assert(t[i - start] == s@[i as int]);
                assert(!all_digits(t));
            }
            return FALLBACK_PORT;
        }
        proof {
            assert(t.take(i - start + 1).drop_last() =~= t.take(i - start));
            assert(t.take(i - start + 1)[i - start] == s@[i as int]);
        }
        v = v * 10 + ((b - 48) as u64);
        if v > 65535 {
            proof {
                if all_digits(t) {
                    lemma_digits_val_mono(t, i - start + 1);
                }
            }
            return FALLBACK_PORT;
        }
        i += 1;
    }
    proof {
        assert(t.take(s@.len() - start) =~= t);
        assert(port_ok(s@));
    }
    v as u16
}

/// The sequences the byte vectors of an argument list hold.
pub open spec fn arg_views(args: Seq<Vec<u8>>) -> Seq<Seq<u8>> {
    Seq::new(args.len(), |i: int| args[i]@)
}

/// An argument that is a recognized option and consumes the argument after
/// it.
pub open spec fn takes_value(a: Seq<u8>) -> bool {
    a == "--mode".spec_bytes() || a == "--bin".spec_bytes() || a == "--port".spec_bytes() || a
        == "--rom".spec_bytes()
}

/// How one recognized option and its value change the mode.
pub open spec fn mode_step(cur: ModeModel, flag: Seq<u8>, value: Seq<u8>) -> ModeModel {
    if flag == "--mode".spec_bytes() {
        if value == "demo".spec_bytes() {
            ModeModel::Demo
        } else if value == "external".spec_bytes() {
            ModeModel::External { bin: default_bin_spec() }
        } else if value == "native".spec_bytes() {
            ModeModel::Native { rom: None }
        } else {
            cur
        }
    } else if flag == "--bin".spec_bytes() {
        ModeModel::External { bin: value }
    } else if flag == "--port".spec_bytes() {
        cur
    } else if flag == "--rom".spec_bytes() {
        ModeModel::Native { rom: Some(value) }
    } else {
        cur
    }
}

/// The mode the argument list settles on, scanned left to right from
/// position `i`.
pub open spec fn mode_fold(args: Seq<Seq<u8>>, i: int, cur: ModeModel) -> ModeModel
    decreases args.len() - i,
{
    if i < 0 || i >= args.len() {
        cur
    } else if takes_value(args[i]) {
        if i + 1 >= args.len() {
            cur
        } else {
            mode_fold(args, i + 2, mode_step(cur, args[i], args[i + 1]))
        }
    } else {
        mode_fold(args, i + 1, cur)
    }
}

/// How one recognized option and its value change the port.
pub open spec fn port_step(cur: u16, flag: Seq<u8>, value: Seq<u8>) -> u16 {
    if flag == "--mode".spec_bytes() {
        cur
    } else if flag == "--bin".spec_bytes() {
        cur
    } else if flag == "--port".spec_bytes() {
        port_spec(value)
    } else {
        cur
    }
}

/// The port the argument list settles on, scanned left to right from
/// position `i`.
pub open spec fn port_fold(args: Seq<Seq<u8>>, i: int, cur: u16) -> u16
    decreases args.len() - i,
{
    if i < 0 || i >= args.len() {
        cur
    } else if takes_value(args[i]) {
        if i + 1 >= args.len() {
            cur
        } else {
            port_fold(args, i + 2, port_step(cur, args[i], args[i + 1]))
        }
    } else {
        port_fold(args, i + 1, cur)
    }
}

/// Parses the argument list, the first entry being the program name: demo
/// mode and the default port unless options say otherwise.
pub fn parse_args(args: &Vec<Vec<u8>>) -> (c: Config)
    ensures
        c@.mode == mode_fold(arg_views(args@), 1, ModeModel::Demo),
        c@.port == port_fold(arg_views(args@), 1, DEFAULT_PORT),
{
    let ghost a = arg_views(args@);
    let mut mode = Mode::Demo;
    let mut port: u16 = DEFAULT_PORT;
    let mut i: usize = 1;
    while i < args.len()
        invariant
            1 <= i,
            a == arg_views(args@),
            mode_fold(a, 1, ModeModel::Demo) == mode_fold(a, i as int, mode@),
            port_fold(a, 1, DEFAULT_PORT) == port_fold(a, i as int, port),
        decreases args@.len() - i,
    {
        let ghost i0 = i as int;
        let ghost m0 = mode@;
        let ghost p0 = port;
        let arg = &args[i];
        proof {
            assert(a[i0] == args@[i0]@);
        }
        let is_mode = bytes_eq(arg.as_slice(), "--mode".as_bytes());
        let is_bin = bytes_eq(arg.as_slice(), "--bin".as_bytes());
        let is_port = bytes_eq(arg.as_slice(), "--port".as_bytes());
        let is_rom = bytes_eq(arg.as_slice(), "--rom".as_bytes());
        if is_mode || is_bin || is_port || is_rom {
            if i + 1 >= args.len() {
                proof {
                    assert(mode_fold(a, i0, m0) == m0);
                    assert(port_fold(a, i0, p0) == p0);
                }
                i = args.len();
            } else {
                let value = &args[i + 1];
                proof {
                    assert(a[i0 + 1] == args@[i0 + 1]@);
                }
                if is_mode {
                    if bytes_eq(value.as_slice(), "demo".as_bytes()) {
                        mode = Mode::Demo;
                    } else if bytes_eq(value.as_slice(), "external".as_bytes()) {
                        mode = Mode::External { bin: slice_to_vec("ashmaize-cli".as_bytes()) };
                    } else if bytes_eq(value.as_slice(), "native".as_bytes()) {
                        mode = Mode::Native { rom: None };
                    }
                } else if is_bin {
                    mode = Mode::External { bin: slice_to_vec(value.as_slice()) };
                } else if is_port {
                    port = parse_port(value.as_slice());
                } else {
                    mode = Mode::Native { rom: Some(slice_to_vec(value.as_slice())) };
                }
                proof {
                    assert(mode@ == mode_step(m0, a[i0], a[i0 + 1]));
                    assert(port == port_step(p0, a[i0], a[i0 + 1]));
                    assert(mode_fold(a, i0, m0) == mode_fold(a, i0 + 2, mode@));
                    assert(port_fold(a, i0, p0) == port_fold(a, i0 + 2, port));
                }
                i += 2;
            }
        } else {
            proof {
                assert(!takes_value(a[i0]));
                assert(mode_fold(a, i0, m0) == mode_fold(a, i0 + 1, m0));
                assert(port_fold(a, i0, p0) == port_fold(a, i0 + 1, p0));
            }
            i += 1;
        }
    }
    proof {
        assert(mode_fold(a, i as int, mode@) == mode@);
        assert(port_fold(a, i as int, port) == port);
    }
    Config { mode, port }
}

/// Checks a configured default selector as hex text, once, at startup: `Ok`
/// exactly when it decodes, the error saying what stops it — an odd length,
/// or the first byte that is no hex digit. The process is expected to die on
/// `Err` before it ever listens.
pub fn validate_default_selector(sel: &[u8]) -> (r: Result<(), HexError>)
    ensures
        r is Ok <==> hex_ok(sel@),
        sel@.len() % 2 != 0 ==> r matches Err(HexError::OddLength),
        sel@.len() % 2 == 0 && !hex_ok(sel@) ==> (r matches Err(HexError::InvalidDigit { index })
            && first_bad_digit(sel@, index as int)),
{
    match hex_decode(sel) {
        Ok(_) => Ok(()),
        Err(e) => Err(e),
    }
}

} // verus!
