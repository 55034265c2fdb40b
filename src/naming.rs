//! Names of files, groups and datasets: the run locator and the per-index
//! names that both schema generations use.
use vstd::prelude::*;
use vstd::string::*;

verus! {

/// The character of a decimal digit.
pub open spec fn digit_char(d: int) -> char {
    seq!['0', '1', '2', '3', '4', '5', '6', '7', '8', '9'][d]
}

/// The decimal digits of a natural number, most significant first.
pub open spec fn decimal(n: nat) -> Seq<char>
    decreases n,
{
    if n < 10 {
        seq![digit_char(n as int)]
    } else {
        decimal(n / 10).push(digit_char((n % 10) as int))
    }
}

/// `s` with `'0'` put in front until it is at least `width` long.
pub open spec fn pad_zeros(s: Seq<char>, width: nat) -> Seq<char> {
    if s.len() >= width {
        s
    } else {
        Seq::new((width - s.len()) as nat, |i: int| '0') + s
    }
}

/// A run number written four characters wide with zeros, the zeros after the
/// `-` of a negative number: `0042`, `-001`, `12345`.
pub open spec fn run_number_text(run: int) -> Seq<char> {
    if run < 0 {
        seq!['-'] + pad_zeros(decimal((-run) as nat), 3)
    } else {
        pad_zeros(decimal(run as nat), 4)
    }
}

/// The file name of a run: `run_`, the run number four characters wide, then
/// `.h5`.
pub open spec fn run_file_name(run: int) -> Seq<char> {
    seq!['r', 'u', 'n', '_'] + run_number_text(run) + seq!['.', 'h', '5']
}

/// `name` placed in directory `base`: a `/` goes between them unless `base` is
/// empty or already ends with one.
pub open spec fn join_path(base: Seq<char>, name: Seq<char>) -> Seq<char> {
    if base.len() == 0 || base.last() == '/' {
        base + name
    } else {
        base + seq!['/'] + name
    }
}

/// The path of the file of run `run` under directory `base`.
pub open spec fn run_path(base: Seq<char>, run: int) -> Seq<char> {
    join_path(base, run_file_name(run))
}

/// Name of the group (current schema) or dataset (scalers of the current
/// schema) of index `i`: `event_<i>`.
pub open spec fn event_name(i: nat) -> Seq<char> {
    seq!['e', 'v', 'e', 'n', 't', '_'] + decimal(i)
}

/// Name of a per-event dataset of the legacy schema: `evt<i>_<suffix>`.
pub open spec fn legacy_event_name(i: nat, suffix: Seq<char>) -> Seq<char> {
    seq!['e', 'v', 't'] + decimal(i) + seq!['_'] + suffix
}

/// Name of a scaler record of the legacy schema: `scaler<i>_data`.
pub open spec fn legacy_scaler_name(i: nat) -> Seq<char> {
    seq!['s', 'c', 'a', 'l', 'e', 'r'] + decimal(i) + seq!['_', 'd', 'a', 't', 'a']
}

fn push_digit(s: &mut String, d: u64)
    requires
        d < 10,
    ensures
        final(s)@ == old(s)@.push(digit_char(d as int)),
{
    proof {
        reveal_strlit("0");
        reveal_strlit("1");
        reveal_strlit("2");
        reveal_strlit("3");
        reveal_strlit("4");
        reveal_strlit("5");
        reveal_strlit("6");
        reveal_strlit("7");
        reveal_strlit("8");
        reveal_strlit("9");
    }
    match d {
        0 => s.append("0"),
        1 => s.append("1"),
        2 => s.append("2"),
        3 => s.append("3"),
        4 => s.append("4"),
        5 => s.append("5"),
        6 => s.append("6"),
        7 => s.append("7"),
        8 => s.append("8"),
        _ => s.append("9"),
    }
    assert(final(s)@ =~= old(s)@.push(digit_char(d as int)));
}

/// Appends the decimal digits of `n` to `s`.
fn push_decimal(s: &mut String, n: u64)
    ensures
        final(s)@ == old(s)@ + decimal(n as nat),
    decreases n,
{
    if n >= 10 {
        push_decimal(s, n / 10);
        push_digit(s, n % 10);
        assert(final(s)@ =~= old(s)@ + decimal(n as nat));
    } else {
        push_digit(s, n);
        assert(final(s)@ =~= old(s)@ + decimal(n as nat));
    }
}

/// The file name of run `run_number`, such as `run_0042.h5` or `run_-001.h5`.
pub fn run_file_name_of(run_number: i32) -> (r: String)
    ensures
        r@ == run_file_name(run_number as int),
{
    let negative = run_number < 0;
    let magnitude: u64 = if negative {
        (-(run_number as i64)) as u64
    } else {
        run_number as u64
    };
    let width: usize = if negative {
        3
    } else {
        4
    };
    let mut digits = String::new();
    push_decimal(&mut digits, magnitude);
    let len = digits.as_str().unicode_len();
    proof {
        reveal_strlit("run_");
        reveal_strlit("-");
        reveal_strlit(".h5");
    }
    let mut r = String::from_str("run_");
    if negative {
        r.append("-");
    }
    let ghost prefix = r@;
    let mut k: usize = len;
    while k < width
        invariant
            width <= 4,
            len == digits@.len(),
            len <= k <= width || (len > width && k == len),
            r@ == prefix + Seq::new((k - len) as nat, |i: int| '0'),
        decreases width - k,
    {
        proof {
            reveal_strlit("0");
        }
        r.append("0");
        k = k + 1;
        assert(r@ =~= prefix + Seq::new((k - len) as nat, |i: int| '0'));
    }
    r.append(digits.as_str());
    r.append(".h5");
    assert(r@ =~= run_file_name(run_number as int));
    r
}

/// The canonical path of the file of run `run_number` under directory `path`.
pub fn construct_run_path(path: &str, run_number: i32) -> (r: String)
    ensures
        r@ == run_path(path@, run_number as int),
{
    let name = run_file_name_of(run_number);
    let mut r = String::from_str(path);
    let len = path.unicode_len();
    if len > 0 && path.get_char(len - 1) != '/' {
        proof {
            reveal_strlit("/");
        }
        r.append("/");
    }
    r.append(name.as_str());
    assert(r@ =~= run_path(path@, run_number as int));
    r
}

/// Name of entry `i` under an `events` or `scalers` group: `event_<i>`.
pub fn event_name_of(i: u64) -> (r: String)
    ensures
        r@ == event_name(i as nat),
{
    proof {
        reveal_strlit("event_");
    }
    let mut r = String::from_str("event_");
    push_decimal(&mut r, i);
    r
}

/// Name of a per-event dataset of the legacy schema: `evt<i>_<suffix>`, where
/// the suffix is `data` or `header` (subsystem A) or `977`, `1903` or
/// `header` (subsystem B).
pub fn legacy_event_name_of(i: u64, suffix: &str) -> (r: String)
    ensures
        r@ == legacy_event_name(i as nat, suffix@),
{
    proof {
        reveal_strlit("evt");
        reveal_strlit("_");
    }
    let mut r = String::from_str("evt");
    push_decimal(&mut r, i);
    r.append("_");
    r.append(suffix);
    assert(r@ =~= legacy_event_name(i as nat, suffix@));
    r
}

/// Name of scaler record `i` of the legacy schema: `scaler<i>_data`.
pub fn legacy_scaler_name_of(i: u32) -> (r: String)
    ensures
        r@ == legacy_scaler_name(i as nat),
{
    proof {
        reveal_strlit("scaler");
        reveal_strlit("_data");
    }
    let mut r = String::from_str("scaler");
    push_decimal(&mut r, i as u64);
    r.append("_data");
    assert(r@ =~= legacy_scaler_name(i as nat));
    r
}

/// Constructing a run path depends on nothing but the directory and the run
/// number: equal arguments give the same path.
pub proof fn lemma_run_path_deterministic(base1: Seq<char>, run1: int, base2: Seq<char>, run2: int)
    requires
        base1 == base2,
        run1 == run2,
    ensures
        run_path(base1, run1) == run_path(base2, run2),
{
}

} // verus!
