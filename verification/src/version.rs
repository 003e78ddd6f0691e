//! Game client versions, as written in replay metadata.
use vstd::prelude::*;

use crate::error::ErrorKind;

verus! {

/// A game client version `major.minor.patch` with a build number.
#[derive(Debug, Clone, Copy, PartialEq, Eq, Structural)]
pub struct Version {
    pub major: u32,
    pub minor: u32,
    pub patch: u32,
    pub build: u32,
}

/// The fields of `s` separated by commas (an empty `s` is one empty field).
pub open spec fn split_commas(s: Seq<char>) -> Seq<Seq<char>>
    decreases s.len(),
{
    if s.len() == 0 {
        seq![Seq::empty()]
    } else {
        let rest = split_commas(s.drop_last());
        if s.last() == ',' {
            rest.push(Seq::empty())
        } else {
            rest.update(rest.len() - 1, rest.last().push(s.last()))
        }
    }
}

pub open spec fn is_digit(c: char) -> bool {
    '0' <= c && c <= '9'
}

pub open spec fn digit_value(c: char) -> nat {
    (c as nat - '0' as nat) as nat
}

/// The number that a string of decimal digits denotes.
pub open spec fn decimal_value(d: Seq<char>) -> nat
    decreases d.len(),
{
    if d.len() == 0 {
        0
    } else {
        decimal_value(d.drop_last()) * 10 + digit_value(d.last())
    }
}

pub open spec fn all_digits(d: Seq<char>) -> bool {
    forall|i: int| 0 <= i < d.len() ==> is_digit(#[trigger] d[i])
}

/// What `str::parse::<u32>` gives for `f`: an optional `+`, then at least
/// one decimal digit, and a value that fits.
pub open spec fn spec_parse_u32(f: Seq<char>) -> Option<u32> {
    let d = if f.len() > 0 && f[0] == '+' {
        f.drop_first()
    } else {
        f
    };
    if d.len() > 0 && all_digits(d) && decimal_value(d) <= u32::MAX {
        Some(decimal_value(d) as u32)
    } else {
        None
    }
}

/// The version that a string like `"0,10,9,0"` denotes, if it is one.
pub open spec fn spec_parse_client_version(s: Seq<char>) -> Option<Version> {
    let f = split_commas(s);
    if f.len() == 4 && spec_parse_u32(f[0]) is Some && spec_parse_u32(f[1]) is Some
        && spec_parse_u32(f[2]) is Some && spec_parse_u32(f[3]) is Some {
        Some(
            Version {
                major: spec_parse_u32(f[0])->0,
                minor: spec_parse_u32(f[1])->0,
                patch: spec_parse_u32(f[2])->0,
                build: spec_parse_u32(f[3])->0,
            },
        )
    } else {
        None
    }
}

/// `a` is the same as or newer than `b`, comparing major, minor and patch
/// numbers in that order and ignoring the build number.
pub open spec fn spec_is_at_least(a: Version, b: Version) -> bool {
    if a.major != b.major {
        a.major > b.major
    } else if a.minor != b.minor {
        a.minor > b.minor
    } else {
        a.patch >= b.patch
    }
}

pub open spec fn digit_char(d: nat) -> char {
    if d == 0 {
        '0'
    } else if d == 1 {
        '1'
    } else if d == 2 {
        '2'
    } else if d == 3 {
        '3'
    } else if d == 4 {
        '4'
    } else if d == 5 {
        '5'
    } else if d == 6 {
        '6'
    } else if d == 7 {
        '7'
    } else if d == 8 {
        '8'
    } else {
        '9'
    }
}

/// The decimal digits of `n`, without leading zeros.
pub open spec fn decimal(n: nat) -> Seq<char>
    decreases n,
{
    if n < 10 {
        seq![digit_char(n)]
    } else {
        decimal(n / 10).push(digit_char(n % 10))
    }
}

/// Parses a decimal `u32` the way `str::parse::<u32>` does, as
/// [`spec_parse_u32`] says.
pub fn parse_u32(s: &str) -> (r: Option<u32>)
    ensures
        r == spec_parse_u32(s@),
{
    proof {
        assert(s@.subrange(0, s@.len() as int) =~= s@);
    }
    parse_u32_field(s, 0, s.unicode_len())
}

fn parse_u32_field(s: &str, start: usize, end: usize) -> (r: Option<u32>)
    requires
        start <= end <= s@.len(),
    ensures
        r == spec_parse_u32(s@.subrange(start as int, end as int)),
{
    let ghost f = s@.subrange(start as int, end as int);
    let mut i = start;
    if i < end && s.get_char(i) == '+' {
        i = i + 1;
    }
    let ghost d = s@.subrange(i as int, end as int);
    proof {
        if f.len() > 0 && f[0] == '+' {
            assert(d =~= f.drop_first());
        } else {
            assert(d =~= f);
        }
    }
    if i >= end {
        return None;
    }
    let mut value: u64 = 0;
    let first = i;
    while i < end
        invariant
            first <= i <= end <= s@.len(),
            first < end,
            d == s@.subrange(first as int, end as int),
            f == s@.subrange(start as int, end as int),
            (f.len() > 0 && f[0] == '+') ==> d == f.drop_first(),
            !(f.len() > 0 && f[0] == '+') ==> d == f,
            all_digits(s@.subrange(first as int, i as int)),
            value == decimal_value(s@.subrange(first as int, i as int)),
            value <= u32::MAX,
        decreases end - i,
    {
        let c = s.get_char(i);
        if !('0' <= c && c <= '9') {
            proof {
                assert(d[i - first] == c);
                assert(!all_digits(d));
            }
            return None;
        }
        let dv = (c as u32 - '0' as u32) as u64;
        proof {
            let p = s@.subrange(first as int, i + 1);
            assert(p.drop_last() =~= s@.subrange(first as int, i as int));
            assert(p.last() == c);
        }
        value = value * 10 + dv;
        i = i + 1;
        if value > u32::MAX as u64 {
            proof {
                lemma_decimal_value_prefix_mono(d, i - first);
                assert(d.subrange(0, i - first) =~= s@.subrange(first as int, i as int));
            }
            return None;
        }
    }
    proof {
        assert(s@.subrange(first as int, end as int) =~= d);
    }
    Some(value as u32)
}

/// What `str::parse::<usize>` gives for `f`: an optional `+`, then at
/// least one decimal digit, and a value that fits.
pub open spec fn spec_parse_usize(f: Seq<char>) -> Option<usize> {
    let d = if f.len() > 0 && f[0] == '+' {
        f.drop_first()
    } else {
        f
    };
    if d.len() > 0 && all_digits(d) && decimal_value(d) <= usize::MAX {
        Some(decimal_value(d) as usize)
    } else {
        None
    }
}

/// What `str::parse::<usize>` gives for `s`, as [`spec_parse_usize`] says.
pub fn parse_usize(s: &str) -> (r: Option<usize>)
    ensures
        r == spec_parse_usize(s@),
{
    proof {
        assert(s@.subrange(0, s@.len() as int) =~= s@);
    }
    parse_usize_field(s, 0, s.unicode_len())
}

fn parse_usize_field(s: &str, start: usize, end: usize) -> (r: Option<usize>)
    requires
        start <= end <= s@.len(),
    ensures
        r == spec_parse_usize(s@.subrange(start as int, end as int)),
{
    let ghost f = s@.subrange(start as int, end as int);
    let mut i = start;
    if i < end && s.get_char(i) == '+' {
        i = i + 1;
    }
    let ghost d = s@.subrange(i as int, end as int);
    proof {
        if f.len() > 0 && f[0] == '+' {
            assert(d =~= f.drop_first());
        } else {
            assert(d =~= f);
        }
    }
    if i >= end {
        return None;
    }
    let mut value: u128 = 0;
    let first = i;
    while i < end
        invariant
            first <= i <= end <= s@.len(),
            first < end,
            d == s@.subrange(first as int, end as int),
            f == s@.subrange(start as int, end as int),
            (f.len() > 0 && f[0] == '+') ==> d == f.drop_first(),
            !(f.len() > 0 && f[0] == '+') ==> d == f,
            all_digits(s@.subrange(first as int, i as int)),
            value == decimal_value(s@.subrange(first as int, i as int)),
            value <= usize::MAX,
        decreases end - i,
    {
        let c = s.get_char(i);
        if !('0' <= c && c <= '9') {
            proof {
                assert(d[i - first] == c);
                assert(!all_digits(d));
            }
            return None;
        }
        let dv = (c as u32 - '0' as u32) as u128;
        proof {
            let p = s@.subrange(first as int, i + 1);
            assert(p.drop_last() =~= s@.subrange(first as int, i as int));
            assert(p.last() == c);
        }
        value = value * 10 + dv;
        i = i + 1;
        if value > usize::MAX as u128 {
            proof {
                lemma_decimal_value_prefix_mono(d, i - first);
                assert(d.subrange(0, i - first) =~= s@.subrange(first as int, i as int));
            }
            return None;
        }
    }
    proof {
        assert(s@.subrange(first as int, end as int) =~= d);
    }
    Some(value as usize)
}

proof fn lemma_decimal_value_prefix_mono(d: Seq<char>, k: int)
    requires
        0 <= k <= d.len(),
    ensures
        decimal_value(d.subrange(0, k)) <= decimal_value(d),
    decreases d.len() - k,
{
    if k < d.len() {
        lemma_decimal_value_prefix_mono(d, k + 1);
        let p = d.subrange(0, k + 1);
        assert(p.drop_last() =~= d.subrange(0, k));
    } else {
        assert(d.subrange(0, k) =~= d);
    }
}

proof fn lemma_split_commas_nonempty(s: Seq<char>)
    ensures
        split_commas(s).len() >= 1,
    decreases s.len(),
{
    if s.len() > 0 {
        lemma_split_commas_nonempty(s.drop_last());
    }
}

impl Version {
    /// Parses a version written as `"major,minor,patch,build"`, or gives
    /// `None` when `version` is not four comma-separated `u32` numbers.
    pub fn parse_client_version(version: &str) -> (r: Option<Version>)
        ensures
            r == spec_parse_client_version(version@),
    {
        let n = version.unicode_len();
        // Field boundaries: starts[k]..ends[k] is field k.
        let mut starts: Vec<usize> = Vec::new();
        let mut ends: Vec<usize> = Vec::new();
        let mut field_start: usize = 0;
        let mut i: usize = 0;
        while i < n
            invariant
                n == version@.len(),
                i <= n,
                field_start <= i,
                starts@.len() == ends@.len(),
                split_commas(version@.subrange(0, i as int)).len() == starts@.len() + 1,
                split_commas(version@.subrange(0, i as int)).last() == version@.subrange(
                    field_start as int,
                    i as int,
                ),
                forall|k: int|
                    0 <= k < starts@.len() ==> #[trigger] starts@[k] <= ends@[k] <= n && split_commas(
                        version@.subrange(0, i as int),
                    )[k] == version@.subrange(starts@[k] as int, ends@[k] as int),
            decreases n - i,
        {
            let c = version.get_char(i);
            let ghost prev = version@.subrange(0, i as int);
            let ghost next = version@.subrange(0, i + 1);
            proof {
                assert(next.drop_last() =~= prev);
                lemma_split_commas_nonempty(prev);
            }
            if c == ',' {
                starts.push(field_start);
                ends.push(i);
                field_start = i + 1;
                proof {
                    assert(version@.subrange(field_start as int, i + 1) =~= Seq::<char>::empty());
                }
            } else {
                proof {
                    assert(version@.subrange(field_start as int, i + 1) =~= version@.subrange(
                        field_start as int,
                        i as int,
                    ).push(c));
                }
            }
            i = i + 1;
        }
        starts.push(field_start);
        ends.push(n);
        proof {
            assert(version@.subrange(0, n as int) =~= version@);
        }
        if starts.len() != 4 {
            return None;
        }
        let major = match parse_u32_field(version, starts[0], ends[0]) {
            Some(v) => v,
            None => return None,
        };
        let minor = match parse_u32_field(version, starts[1], ends[1]) {
            Some(v) => v,
            None => return None,
        };
        let patch = match parse_u32_field(version, starts[2], ends[2]) {
            Some(v) => v,
            None => return None,
        };
        let build = match parse_u32_field(version, starts[3], ends[3]) {
            Some(v) => v,
            None => return None,
        };
        Some(Version { major, minor, patch, build })
    }

    /// Parses a version written as `"major,minor,patch,build"` (the form of
    /// the replay metadata's `clientVersionFromExe`).
    pub fn from_client_exe(version: &str) -> (r: Version)
        requires
            spec_parse_client_version(version@) is Some,
        ensures
            r == spec_parse_client_version(version@)->0,
    {
        match Version::parse_client_version(version) {
            Some(v) => v,
            None => {
                proof {
                    assert(false);
                }
                Version { major: 0, minor: 0, patch: 0, build: 0 }
            },
        }
    }

    /// Whether this version is the same as or newer than `other`.
    pub fn is_at_least(&self, other: &Version) -> (r: bool)
        ensures
            r == spec_is_at_least(*self, *other),
    {
        if self.major > other.major {
            true
        } else if self.major < other.major {
            false
        } else if self.minor > other.minor {
            true
        } else if self.minor < other.minor {
            false
        } else if self.patch >= other.patch {
            true
        } else {
            false
        }
    }
}

fn digit_str(d: u32) -> (r: &'static str)
    requires
        d < 10,
    ensures
        r@ == seq![digit_char(d as nat)],
{
    proof {
        reveal_strlit("0");
        reveal_strlit("1");
        reveal_strlit("2");
        reveal_strlit("3");
        reveal_strlit("4");
        reveal_strlit("5");
        reveal_strlit("6");
        reveal_strlit("7");
        reveal_strlit("8");
        reveal_strlit("9");
    }
    if d == 0 {
        "0"
    } else if d == 1 {
        "1"
    } else if d == 2 {
        "2"
    } else if d == 3 {
        "3"
    } else if d == 4 {
        "4"
    } else if d == 5 {
        "5"
    } else if d == 6 {
        "6"
    } else if d == 7 {
        "7"
    } else if d == 8 {
        "8"
    } else {
        "9"
    }
}

/// Appends the decimal digits of `n` to `out`.
pub fn push_decimal(out: &mut String, n: u32)
    ensures
        final(out)@ == old(out)@ + decimal(n as nat),
    decreases n,
{
    if n < 10 {
        out.append(digit_str(n));
    } else {
        push_decimal(out, n / 10);
        out.append(digit_str(n % 10));
        proof {
            assert(old(out)@ + decimal((n / 10) as nat) + seq![digit_char((n % 10) as nat)]
                =~= old(out)@ + decimal(n as nat));
        }
    }
}

/// Appends the decimal digits of `n` to `out`.
pub fn push_decimal_u64(out: &mut String, n: u64)
    ensures
        final(out)@ == old(out)@ + decimal(n as nat),
    decreases n,
{
    if n < 10 {
        out.append(digit_str(n as u32));
    } else {
        push_decimal_u64(out, n / 10);
        out.append(digit_str((n % 10) as u32));
        proof {
            assert(old(out)@ + decimal((n / 10) as nat) + seq![digit_char((n % 10) as nat)]
                =~= old(out)@ + decimal(n as nat));
        }
    }
}

/// The directory name of a version's data files: `"major.minor.patch"`.
pub open spec fn version_path(v: Version) -> Seq<char> {
    decimal(v.major as nat) + seq!['.'] + decimal(v.minor as nat) + seq!['.'] + decimal(v.patch as nat)
}

impl Version {
    /// The directory name of this version's data files: `"major.minor.patch"`.
    pub fn to_path(&self) -> (r: String)
        ensures
            r@ == version_path(*self),
    {
        proof {
            reveal_strlit(".");
        }
        let mut s = String::new();
        push_decimal(&mut s, self.major);
        s.append(".");
        push_decimal(&mut s, self.minor);
        s.append(".");
        push_decimal(&mut s, self.patch);
        proof {
            assert(Seq::<char>::empty() + decimal(self.major as nat) =~= decimal(self.major as nat));
        }
        s
    }
}

/// Every version is at least itself.
pub proof fn lemma_is_at_least_reflexive(a: Version)
    ensures
        spec_is_at_least(a, a),
{
}

/// Of any two versions, one is at least the other.
pub proof fn lemma_is_at_least_total(a: Version, b: Version)
    ensures
        spec_is_at_least(a, b) || spec_is_at_least(b, a),
{
}

/// Being at least another version is transitive.
pub proof fn lemma_is_at_least_transitive(a: Version, b: Version, c: Version)
    requires
        spec_is_at_least(a, b),
        spec_is_at_least(b, c),
    ensures
        spec_is_at_least(a, c),
{
}

/// Two versions are each at least the other exactly when their major, minor
/// and patch numbers agree.
pub proof fn lemma_is_at_least_antisymmetric(a: Version, b: Version)
    ensures
        (spec_is_at_least(a, b) && spec_is_at_least(b, a)) <==> (a.major == b.major && a.minor
            == b.minor && a.patch == b.patch),
{
}


/// Reads the data files of a game version by their path below the
/// version's directory.
pub trait DataFileLoader {
    fn get(&self, path: &str) -> Result<Vec<u8>, ErrorKind>;
}

/// A [`DataFileLoader`] that asks a function for each file.
pub struct DataFileWithCallback<F: Fn(&str) -> Result<Vec<u8>, ErrorKind>> {
    callback: F,
}

impl<F: Fn(&str) -> Result<Vec<u8>, ErrorKind>> DataFileWithCallback<F> {
    #[verifier::type_invariant]
    spec fn callable(self) -> bool {
        forall|p: &str| #[trigger] call_requires(self.callback, (p,))
    }

    /// A loader that calls `callback` with the path of each file asked for.
    pub fn new(callback: F) -> (r: Self)
        requires
            forall|p: &str| #[trigger] call_requires(callback, (p,)),
        ensures
            r.callback() == callback,
    {
        Self { callback }
    }

    /// The function asked for each file.
    pub closed spec fn callback(&self) -> F {
        self.callback
    }
}

impl<F: Fn(&str) -> Result<Vec<u8>, ErrorKind>> DataFileLoader for DataFileWithCallback<F> {
    fn get(&self, path: &str) -> (r: Result<Vec<u8>, ErrorKind>)
        ensures
            call_ensures(self.callback(), (path,), r),
    {
        proof {
            use_type_invariant(self);
        }
        (self.callback)(path)
    }
}

/// The data files of one game version, found under a base directory.
pub struct EmbeddedDataFiles {
    base_path: String,
    version: Version,
}

impl EmbeddedDataFiles {
    /// The data files of `version` under the directory `base`.
    pub fn new(base: String, version: Version) -> (r: Result<EmbeddedDataFiles, ErrorKind>)
        ensures
            r matches Ok(f) && f.base() == base@ && f.version() == version,
    {
        Ok(EmbeddedDataFiles { base_path: base, version })
    }

    pub closed spec fn base(&self) -> Seq<char> {
        self.base_path@
    }

    pub closed spec fn version(&self) -> Version {
        self.version
    }

    /// Where the file `path` of this version lies on disk:
    /// `base/major.minor.patch/path`.
    pub fn file_path(&self, path: &str) -> (r: String)
        ensures
            r@ == self.base() + seq!['/'] + version_path(self.version()) + seq!['/'] + path@,
    {
        proof {
            reveal_strlit("/");
        }
        let mut r = self.base_path.clone();
        r.append("/");
        r.append(self.version.to_path().as_str());
        r.append("/");
        r.append(path);
        r
    }

    /// The name under which the file `path` of this version is embedded:
    /// `major.minor.patch/path`.
    pub fn embedded_name(&self, path: &str) -> (r: String)
        ensures
            r@ == version_path(self.version()) + seq!['/'] + path@,
    {
        proof {
            reveal_strlit("/");
        }
        let mut r = self.version.to_path();
        r.append("/");
        r.append(path);
        r
    }

    /// The error for a file `path` that this version does not have.
    pub fn not_found(&self, path: &str) -> (r: ErrorKind)
        ensures
            r matches ErrorKind::DatafileNotFound { version, path: p } && version == self.version() && p@ == path@,
    {
        ErrorKind::DatafileNotFound { version: self.version, path: path.to_owned() }
    }
}

} // verus!
