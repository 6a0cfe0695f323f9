//! Startup options: the command-line arguments accepted by the server
//! and the parser that turns an argument vector into them, including
//! the decimal parsing of the worker thread count.

use vstd::prelude::*;
use vstd::string::StrSliceExecFns;

use crate::text::str_eq;

verus! {

/// Why an argument vector was rejected: an unknown flag, a flag without
/// a following value, or a `--threads` value that is not a number.
#[derive(Clone, Copy, PartialEq, Eq, Structural, Debug)]
pub enum ArgsError {
    InvalidFlag,
    MissingValue,
    InvalidThreadCount,
}

/// The options to start the web server, collected from the command line.
/// The only supported arguments are `--port`, `--threads`, and `--dir-path`.
#[derive(Debug)]
pub struct CliArgs {
    /// The `--port` option, binding the application to the given port.
    /// When not provided, a system-assigned port is used and displayed.
    pub port: Option<String>,
    /// The `--threads` option, the number of worker threads to serve
    /// concurrent requests. Defaults to 10 when not provided.
    pub thread_count: usize,
    /// The `--dir-path` option, the root directory of the static files,
    /// relative or absolute. Defaults to the first argument (the
    /// program's own path) when not provided.
    pub dir_path: String,
}

/// The mathematical content of a `CliArgs` value.
pub struct ArgsModel {
    pub port: Option<Seq<char>>,
    pub thread_count: nat,
    pub dir_path: Seq<char>,
}

impl CliArgs {
    /// The options this value carries, as plain sequences and numbers.
    pub open spec fn model(&self) -> ArgsModel {
        ArgsModel {
            port: self.port.deep_view(),
            thread_count: self.thread_count as nat,
            dir_path: self.dir_path@,
        }
    }
}

/// A decimal digit character.
pub open spec fn is_digit(c: char) -> bool {
    48 <= c as u32 <= 57
}

/// The value of a decimal digit character.
pub open spec fn digit_val(c: char) -> int {
    c as u32 - 48
}

/// Every character of `s` is a decimal digit.
pub open spec fn all_digits(s: Seq<char>) -> bool {
    forall|i: int| 0 <= i < s.len() ==> is_digit(#[trigger] s[i])
}

/// The number the digit string `s` denotes, most significant digit first.
pub open spec fn dec_value(s: Seq<char>) -> int
    decreases s.len(),
{
    if s.len() == 0 {
        0
    } else {
        dec_value(s.drop_last()) * 10 + digit_val(s.last())
    }
}

/// The digits of a numeric literal: everything after an optional
/// leading plus sign.
pub open spec fn digits_part(s: Seq<char>) -> Seq<char> {
    if s.len() > 0 && s[0] == '+' {
        s.skip(1)
    } else {
        s
    }
}

/// The strings accepted as a `usize` value: an optional leading plus
/// sign, then at least one decimal digit, denoting a number that fits.
pub open spec fn is_usize_literal(s: Seq<char>) -> bool {
    &&& digits_part(s).len() > 0
    &&& all_digits(digits_part(s))
    &&& dec_value(digits_part(s)) <= usize::MAX
}

proof fn lemma_dec_value_nonneg(s: Seq<char>)
    requires
        all_digits(s),
    ensures
        dec_value(s) >= 0,
    decreases s.len(),
{
    if s.len() > 0 {
        lemma_dec_value_nonneg(s.drop_last());
    }
}

proof fn lemma_dec_value_take_succ(s: Seq<char>, k: int)
    requires
        0 <= k < s.len(),
    ensures
        dec_value(s.take(k + 1)) == dec_value(s.take(k)) * 10 + digit_val(s[k]),
{
    assert(s.take(k + 1).drop_last() =~= s.take(k));
}

proof fn lemma_dec_value_take_le(s: Seq<char>, k: int)
    requires
        all_digits(s),
        0 <= k <= s.len(),
    ensures
        dec_value(s.take(k)) <= dec_value(s),
    decreases s.len() - k,
{
    if k < s.len() {
        lemma_dec_value_take_succ(s, k);
        lemma_dec_value_nonneg(s.take(k));
        lemma_dec_value_take_le(s, k + 1);
    } else {
        assert(s.take(k) =~= s);
    }
}

/// Reads a decimal `usize` as `str::parse::<usize>` does: an optional
/// leading plus sign, then at least one digit; any other character, an
/// empty digit string, or a value that overflows yields `None`.
pub fn parse_usize(s: &str) -> (r: Option<usize>)
    ensures
        r is Some <==> is_usize_literal(s@),
        r is Some ==> r->Some_0 as int == dec_value(digits_part(s@)),
{
    let n = s.unicode_len();
    let mut start: usize = 0;
    if n > 0 && s.get_char(0) == '+' {
        start = 1;
    }
    proof {
        assert(digits_part(s@) =~= s@.subrange(start as int, n as int));
    }
    if start == n {
        return None;
    }
    let ghost d = digits_part(s@);
    let mut val: usize = 0;
    let mut i: usize = start;
    while i < n
        invariant
            start <= i <= n,
            n == s@.len(),
            d == digits_part(s@),
            d == s@.subrange(start as int, n as int),
            d.len() == n - start,
            forall|k: int| 0 <= k < i - start ==> is_digit(#[trigger] d[k]),
            val == dec_value(d.take(i - start)),
        decreases n - i,
    {
        let c = s.get_char(i);
        let u = c as u32;
        if u < 48 || u > 57 {
            proof {
                assert(d[i - start] == s@[i as int]);
                assert(!is_digit(d[i - start]));
            }
            return None;
        }
        let dv = (u - 48) as usize;
        let limit = (usize::MAX - dv) / 10;
        proof {
            assert(d[i - start] == s@[i as int]);
            lemma_dec_value_take_succ(d, i - start);
        }
        if val > limit {
            proof {
                assert(limit * 10 + 10 > usize::MAX - dv) by (nonlinear_arith)
                    requires
                        limit == (usize::MAX - dv) / 10,
                        0 <= dv < 10,
                {
                }
                assert(val * 10 >= (limit + 1) * 10) by (nonlinear_arith)
                    requires
                        val >= limit + 1,
                {
                }
                assert(dec_value(d.take(i - start + 1)) > usize::MAX);
                if all_digits(d) {
                    lemma_dec_value_take_le(d, i - start + 1);
                }
            }
            return None;
        }
        proof {
            assert(val * 10 + dv <= limit * 10 + dv <= usize::MAX) by (nonlinear_arith)
                requires
                    val <= limit,
                    limit == (usize::MAX - dv) / 10,
                    0 <= dv < 10,
            {
            }
        }
        val = val * 10 + dv;
        i = i + 1;
    }
    proof {
        assert(d.take(i - start) =~= d);
        lemma_dec_value_nonneg(d);
    }
    Some(val)
}

/// A recognized command-line flag.
pub open spec fn is_allowed_flag(a: Seq<char>) -> bool {
    a == "--port"@ || a == "--threads"@ || a == "--dir-path"@
}

/// The options an argument vector denotes when read from position `i`
/// onward with the options gathered so far: flags come in
/// flag-then-value pairs, later occurrences overriding earlier ones,
/// and the first offending argument decides the error.
pub open spec fn spec_parse_args(args: Seq<Seq<char>>, i: int, cur: ArgsModel) -> Result<
    ArgsModel,
    ArgsError,
>
    decreases args.len() - i,
{
    if i >= args.len() {
        Ok(cur)
    } else if !is_allowed_flag(args[i]) {
        Err(ArgsError::InvalidFlag)
    } else if i + 1 >= args.len() {
        Err(ArgsError::MissingValue)
    } else if args[i] == "--port"@ {
        spec_parse_args(args, i + 2, ArgsModel { port: Some(args[i + 1]), ..cur })
    } else if args[i] == "--threads"@ {
        if is_usize_literal(args[i + 1]) {
            spec_parse_args(
                args,
                i + 2,
                ArgsModel { thread_count: dec_value(digits_part(args[i + 1])) as nat, ..cur },
            )
        } else {
            Err(ArgsError::InvalidThreadCount)
        }
    } else {
        spec_parse_args(args, i + 2, ArgsModel { dir_path: args[i + 1], ..cur })
    }
}

/// The options before any flag is read: no port, ten worker threads,
/// and the program's own path (the first argument) as base directory.
pub open spec fn initial_args(program: Seq<char>) -> ArgsModel {
    ArgsModel { port: None, thread_count: 10, dir_path: program }
}

impl CliArgs {
    /// Reads the options out of a full argument vector (the program's
    /// path first, as the process receives it): recognized flags are
    /// `--port`, `--threads` and `--dir-path`, each taking the following
    /// argument as its value, and the result is exactly what
    /// `spec_parse_args` says — including which of the three errors an
    /// unacceptable vector produces.
    pub fn parse(args: &Vec<String>) -> (r: Result<CliArgs, ArgsError>)
        requires
            args@.len() >= 1,
        ensures
            match r {
                Ok(c) => spec_parse_args(
                    args.deep_view(),
                    1,
                    initial_args(args.deep_view()[0]),
                ) == Ok::<_, ArgsError>(c.model()),
                Err(e) => spec_parse_args(
                    args.deep_view(),
                    1,
                    initial_args(args.deep_view()[0]),
                ) == Err::<ArgsModel, _>(e),
            },
    {
        let ghost av = args.deep_view();
        let mut ret = CliArgs { port: None, thread_count: 10, dir_path: args[0].clone() };
        let mut i: usize = 1;
        while i < args.len()
            invariant
                1 <= i,
                av == args.deep_view(),
                av.len() == args@.len(),
                forall|k: int| 0 <= k < av.len() ==> av[k] == #[trigger] args@[k]@,
                spec_parse_args(av, 1, initial_args(av[0])) == spec_parse_args(
                    av,
                    i as int,
                    ret.model(),
                ),
            decreases args@.len() - i,
        {
            let arg = &args[i];
            let is_port = str_eq(arg.as_str(), "--port");
            let is_threads = str_eq(arg.as_str(), "--threads");
            let is_dir = str_eq(arg.as_str(), "--dir-path");
            if !(is_port || is_threads || is_dir) {
                return Err(ArgsError::InvalidFlag);
            }
            if i + 1 >= args.len() {
                return Err(ArgsError::MissingValue);
            }
            let value = &args[i + 1];
            if is_port {
                ret.port = Some(value.clone());
            } else if is_threads {
                match parse_usize(value.as_str()) {
                    Some(size) => {
                        ret.thread_count = size;
                    },
                    None => {
                        return Err(ArgsError::InvalidThreadCount);
                    },
                }
            } else {
                ret.dir_path = value.clone();
            }
            i = i + 2;
        }
        Ok(ret)
    }
}

} // verus!
