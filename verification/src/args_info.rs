//! Command-line arguments: parsing the engine's flags and generating an
//! equivalent command line back (used when the engine restarts itself).
//!
//! Grammar, after the executable path: `--no-restart` (a bare flag),
//! `--workers <count>`, and `--assets <path>`, matched case-insensitively;
//! later occurrences win.  Anything else is rejected.

use vstd::prelude::*;

verus! {

use vstd::string::*;

/// The parsed command line.
#[derive(Clone, Debug, PartialEq, Eq)]
pub struct ArgsInfo {
    pub raw_args: Vec<String>,
    pub executable_path: String,
    pub no_restart: bool,
    pub workers: Option<usize>,
    pub assets: String,
}

/// Why a command line was rejected.
#[derive(Clone, Copy, PartialEq, Eq, Structural, Debug)]
pub enum ArgsError {
    /// A flag that takes a value was the last argument.
    MissingValue,
    /// The value after `--workers` is not a count.
    InvalidWorkers,
    /// An argument that is no known flag.
    UnexpectedArgument,
}

/// What `str::to_lowercase` returns; the result depends on the characters
/// alone.
pub uninterp spec fn lower_of(s: Seq<char>) -> Seq<char>;

/// Relies on `str::to_lowercase` for case-insensitive flag matching.
#[verifier::external_body]
fn to_lowercase(s: &str) -> (lowered: String)
    ensures
        lowered@ == lower_of(s@),
{
    s.to_lowercase()
}

/// Whether `c` is a decimal digit.
pub open spec fn is_digit(c: char) -> bool {
    48 <= c as int <= 57
}

/// The value of a decimal digit.
pub open spec fn digit_val(c: char) -> int {
    c as int - 48
}

/// Whether every character of `s` is a decimal digit.
pub open spec fn all_digits(s: Seq<char>) -> bool {
    forall|i: int| 0 <= i < s.len() ==> is_digit(#[trigger] s[i])
}

/// The number a string of decimal digits denotes.
pub open spec fn decimal_val(s: Seq<char>) -> int
    decreases s.len(),
{
    if s.len() == 0 {
        0
    } else {
        decimal_val(s.drop_last()) * 10 + digit_val(s.last())
    }
}

/// What parsing a count accepts: one or more decimal digits whose value
/// fits the machine, nothing else.
pub open spec fn parse_usize_spec(s: Seq<char>) -> Option<usize> {
    if s.len() == 0 || !all_digits(s) {
        None
    } else if decimal_val(s) > usize::MAX {
        None
    } else {
        Some(decimal_val(s) as usize)
    }
}

/// The character of a decimal digit.
pub open spec fn digit_char(d: int) -> char {
    if d == 0 {
        '0'
    } else if d == 1 {
        '1'
    } else if d == 2 {
        '2'
    } else if d == 3 {
        '3'
    } else if d == 4 {
        '4'
    } else if d == 5 {
        '5'
    } else if d == 6 {
        '6'
    } else if d == 7 {
        '7'
    } else if d == 8 {
        '8'
    } else {
        '9'
    }
}

/// The decimal digits of `n`, most significant first.
pub open spec fn decimal_digits(n: nat) -> Seq<char>
    decreases n,
{
    if n < 10 {
        seq![digit_char(n as int)]
    } else {
        decimal_digits(n / 10).push(digit_char((n % 10) as int))
    }
}

/// A digit string is never negative.
proof fn lemma_decimal_val_nonneg(s: Seq<char>)
    requires
        all_digits(s),
    ensures
        decimal_val(s) >= 0,
    decreases s.len(),
{
    if s.len() > 0 {
        assert(all_digits(s.drop_last())) by {
            assert(forall|i: int| 0 <= i < s.len() - 1 ==> s.drop_last()[i] == #[trigger] s[i]);
        }
        lemma_decimal_val_nonneg(s.drop_last());
    }
}

/// A digit string is worth at least any of its prefixes.
proof fn lemma_decimal_val_prefix(s: Seq<char>, j: int)
    requires
        all_digits(s),
        0 <= j <= s.len(),
    ensures
        decimal_val(s.subrange(0, j)) <= decimal_val(s),
    decreases s.len() - j,
{
    if j == s.len() {
        assert(s.subrange(0, j) =~= s);
    } else {
        assert(all_digits(s.subrange(0, j + 1))) by {
            assert(forall|i: int| 0 <= i < j + 1 ==> s.subrange(0, j + 1)[i] == #[trigger] s[i]);
        }
        assert(s.subrange(0, j + 1).drop_last() =~= s.subrange(0, j));
        lemma_decimal_val_nonneg(s.subrange(0, j));
        assert(decimal_val(s.subrange(0, j)) <= decimal_val(s.subrange(0, j + 1)));
        lemma_decimal_val_prefix(s, j + 1);
    }
}

/// Parses a count: accepts exactly the strings of decimal digits whose
/// value fits the machine, and returns that value.
pub fn parse_usize(s: &str) -> (parsed: Option<usize>)
    ensures
        parsed == parse_usize_spec(s@),
{
    let len = s.unicode_len();
    if len == 0 {
        return None;
    }
    let mut value: usize = 0;
    let mut i: usize = 0;
    while i < len
        invariant
            len == s@.len(),
            0 < len,
            i <= len,
            all_digits(s@.subrange(0, i as int)),
            value == decimal_val(s@.subrange(0, i as int)),
        decreases len - i,
    {
        let c = s.get_char(i);
        let code = c as u32;
        if code < 48 || code > 57 {
            proof {
                assert(!is_digit(s@[i as int]));
            }
            return None;
        }
        let digit = (code - 48) as usize;
        let ghost prefix = s@.subrange(0, i as int);
        let ghost extended = s@.subrange(0, i as int + 1);
        proof {
            assert(extended.drop_last() =~= prefix);
            assert(extended.last() == s@[i as int]);
            assert(all_digits(extended)) by {
                assert(forall|k: int| 0 <= k < i ==> extended[k] == #[trigger] prefix[k]);
            }
        }
        match value.checked_mul(10) {
            Some(times10) => match times10.checked_add(digit) {
                Some(next) => {
                    value = next;
                },
                None => {
                    proof {
                        lemma_overflow_means_none(s@, i as int + 1);
                    }
                    return None;
                },
            },
            None => {
                proof {
                    lemma_overflow_means_none(s@, i as int + 1);
                }
                return None;
            },
        }
        i = i + 1;
    }
    proof {
        assert(s@.subrange(0, len as int) =~= s@);
    }
    Some(value)
}

/// When some prefix of the input is already worth more than the machine can
/// hold, parsing the whole input yields nothing — either a later character
/// is no digit, or the full value is larger still.
proof fn lemma_overflow_means_none(s: Seq<char>, j: int)
    requires
        0 <= j <= s.len(),
        all_digits(s.subrange(0, j)),
        decimal_val(s.subrange(0, j)) > usize::MAX,
    ensures
        parse_usize_spec(s) is None,
{
    if all_digits(s) {
        lemma_decimal_val_prefix(s, j);
    }
}

/// Turns a count into its decimal digits, most significant first.
pub fn usize_to_string(n: usize) -> (s: String)
    ensures
        s@ == decimal_digits(n as nat),
    decreases n,
{
    let digit = n % 10;
    let digits = "0123456789";
    proof {
        reveal_strlit("0123456789");
        assert(digits@[digit as int] == digit_char(digit as int));
    }
    let piece = digits.substring_char(digit, digit + 1);
    proof {
        assert(piece@ =~= seq![digit_char(digit as int)]);
    }
    if n < 10 {
        String::from_str(piece)
    } else {
        proof {
            vstd::arithmetic::div_mod::lemma_div_decreases(n as int, 10);
        }
        let mut front = usize_to_string(n / 10);
        front.append(piece);
        proof {
            assert(front@ =~= decimal_digits(n as nat));
        }
        front
    }
}

/// One step of flag matching, and what the whole match from position `i`
/// produces given what is already accumulated: later flags overwrite
/// earlier ones, a flag missing its value or an unparsable count or an
/// unknown argument rejects the whole line.
pub open spec fn parse_flags(
    args: Seq<Seq<char>>,
    i: int,
    no_restart: bool,
    workers: Option<usize>,
    assets: Seq<char>,
) -> Result<(bool, Option<usize>, Seq<char>), ArgsError>
    decreases args.len() - i,
{
    if i < 0 || i >= args.len() {
        Ok((no_restart, workers, assets))
    } else if lower_of(args[i]) == "--no-restart"@ {
        parse_flags(args, i + 1, true, workers, assets)
    } else if lower_of(args[i]) == "--workers"@ {
        if i + 1 >= args.len() {
            Err(ArgsError::MissingValue)
        } else {
            match parse_usize_spec(args[i + 1]) {
                Some(count) => parse_flags(args, i + 2, no_restart, Some(count), assets),
                None => Err(ArgsError::InvalidWorkers),
            }
        }
    } else if lower_of(args[i]) == "--assets"@ {
        if i + 1 >= args.len() {
            Err(ArgsError::MissingValue)
        } else {
            parse_flags(args, i + 2, no_restart, workers, args[i + 1])
        }
    } else {
        Err(ArgsError::UnexpectedArgument)
    }
}

impl ArgsInfo {
    /// Parses a command line: the first argument is the executable path,
    /// the rest are flags per `parse_flags`, starting from the defaults —
    /// restart allowed, no worker count configured, assets under `assets`.
    pub fn parse(raw_args: Vec<String>) -> (parsed: Result<ArgsInfo, ArgsError>)
        requires
            raw_args@.len() >= 1,
        ensures
            ({
                let outcome = parse_flags(raw_args.deep_view(), 1, false, None, "assets"@);
                &&& (outcome matches Ok(model) ==> parsed matches Ok(info) && {
                    &&& info.raw_args.deep_view() == raw_args.deep_view()
                    &&& info.executable_path@ == raw_args.deep_view()[0]
                    &&& info.no_restart == model.0
                    &&& info.workers == model.1
                    &&& info.assets@ == model.2
                })
                &&& (outcome matches Err(error) ==> parsed matches Err(reported) && reported
                    == error)
            }),
    {
        let ghost args = raw_args.deep_view();
        let executable_path = raw_args[0].clone();
        let mut no_restart = false;
        let mut workers: Option<usize> = None;
        let mut assets = String::from_str("assets");
        let n = raw_args.len();
        let mut i: usize = 1;
        while i < n
            invariant
                args == raw_args.deep_view(),
                n == raw_args@.len(),
                1 <= i <= n,
                executable_path@ == args[0],
                parse_flags(args, 1, false, None, "assets"@) == parse_flags(
                    args,
                    i as int,
                    no_restart,
                    workers,
                    assets@,
                ),
            decreases n - i,
        {
            proof {
                assert(args[i as int] == raw_args@[i as int]@);
            }
            let lowered = to_lowercase(raw_args[i].as_str());
            if lowered == String::from_str("--no-restart") {
                no_restart = true;
                i = i + 1;
            } else if lowered == String::from_str("--workers") {
                if i + 1 >= n {
                    return Err(ArgsError::MissingValue);
                }
                proof {
                    assert(args[i as int + 1] == raw_args@[i as int + 1]@);
                }
                match parse_usize(raw_args[i + 1].as_str()) {
                    Some(count) => {
                        workers = Some(count);
                    },
                    None => {
                        return Err(ArgsError::InvalidWorkers);
                    },
                }
                i = i + 2;
            } else if lowered == String::from_str("--assets") {
                if i + 1 >= n {
                    return Err(ArgsError::MissingValue);
                }
                proof {
                    assert(args[i as int + 1] == raw_args@[i as int + 1]@);
                }
                assets = raw_args[i + 1].clone();
                i = i + 2;
            } else {
                return Err(ArgsError::UnexpectedArgument);
            }
        }
        Ok(ArgsInfo { raw_args, executable_path, no_restart, workers, assets })
    }

    /// The command line this parse is equivalent to: the executable path,
    /// `--no-restart` when set, the worker count when configured, and the
    /// assets path, in that order.
    pub open spec fn generated_spec(self) -> Seq<Seq<char>> {
        let base = seq![self.executable_path@];
        let with_no_restart = if self.no_restart {
            base.push("--no-restart"@)
        } else {
            base
        };
        let with_workers = match self.workers {
            Some(count) => with_no_restart.push("--workers"@).push(
                decimal_digits(count as nat),
            ),
            None => with_no_restart,
        };
        with_workers.push("--assets"@).push(self.assets@)
    }

    /// Writes the parse back out as a command line (see `generated_spec`);
    /// used when the engine restarts itself with its own settings.
    pub fn generate_raw_args(&self) -> (generated: Vec<String>)
        ensures
            generated.deep_view() == self.generated_spec(),
    {
        let mut result: Vec<String> = Vec::new();
        result.push(self.executable_path.clone());
        if self.no_restart {
            result.push(String::from_str("--no-restart"));
        }
        if let Some(count) = self.workers {
            result.push(String::from_str("--workers"));
            result.push(usize_to_string(count));
        }
        result.push(String::from_str("--assets"));
        result.push(self.assets.clone());
        proof {
            assert(result.deep_view() =~= self.generated_spec());
        }
        result
    }
}

} // verus!
