//! The one-line description of the operating system shown by the app: the
//! caption and version that WMI reports when it answers, otherwise the
//! version numbers of the kernel and the service pack.

use vstd::prelude::*;
use vstd::string::*;

verus! {

/// Whether `u` is a UTF-16 leading (high) surrogate.
pub open spec fn is_high_surrogate(u: u16) -> bool {
    0xD800 <= u <= 0xDBFF
}

/// Whether `u` is a UTF-16 trailing (low) surrogate.
pub open spec fn is_low_surrogate(u: u16) -> bool {
    0xDC00 <= u <= 0xDFFF
}

/// The text of UTF-16 `units`, decoded lossily: a unit outside the
/// surrogate range is the character of that value, a leading surrogate
/// followed by a trailing one is the character the pair encodes, and any
/// other surrogate is U+FFFD; decoding goes on with the next unit.
pub open spec fn utf16_lossy(units: Seq<u16>) -> Seq<char>
    decreases units.len(),
{
    if units.len() == 0 {
        Seq::empty()
    } else {
        let u = units[0];
        if !is_high_surrogate(u) && !is_low_surrogate(u) {
            seq![(u as u32) as char] + utf16_lossy(units.drop_first())
        } else if is_high_surrogate(u) && units.len() >= 2 && is_low_surrogate(units[1]) {
            seq![(0x10000 + (u - 0xD800) * 0x400 + (units[1] - 0xDC00)) as char] + utf16_lossy(
                units.subrange(2, units.len() as int),
            )
        } else {
            seq!['\u{FFFD}'] + utf16_lossy(units.drop_first())
        }
    }
}

/// Calls `String::from_utf16_lossy`, which decodes UTF-16 and replaces each
/// unpaired surrogate with U+FFFD, as [`utf16_lossy`] states.
#[verifier::external_body]
pub(crate) fn decode_utf16_lossy(units: &[u16]) -> (r: String)
    ensures
        r@ == utf16_lossy(units@),
{
    String::from_utf16_lossy(units)
}

/// The decimal digit `d`.
pub open spec fn digit_char(d: nat) -> char {
    if d == 0 {
        '0'
    } else if d == 1 {
        '1'
    } else if d == 2 {
        '2'
    } else if d == 3 {
        '3'
    } else if d == 4 {
        '4'
    } else if d == 5 {
        '5'
    } else if d == 6 {
        '6'
    } else if d == 7 {
        '7'
    } else if d == 8 {
        '8'
    } else {
        '9'
    }
}

/// `n` written in decimal, without leading zeros.
pub open spec fn decimal(n: nat) -> Seq<char>
    decreases n,
{
    if n < 10 {
        seq![digit_char(n)]
    } else {
        decimal(n / 10).push(digit_char(n % 10))
    }
}

/// The digit `d` as a string.
fn digit_str(d: u32) -> (r: &'static str)
    requires
        d < 10,
    ensures
        r@ == seq![digit_char(d as nat)],
{
    proof {
        reveal_strlit("0");
        reveal_strlit("1");
        reveal_strlit("2");
        reveal_strlit("3");
        reveal_strlit("4");
        reveal_strlit("5");
        reveal_strlit("6");
        reveal_strlit("7");
        reveal_strlit("8");
        reveal_strlit("9");
    }
    let r = if d == 0 {
        "0"
    } else if d == 1 {
        "1"
    } else if d == 2 {
        "2"
    } else if d == 3 {
        "3"
    } else if d == 4 {
        "4"
    } else if d == 5 {
        "5"
    } else if d == 6 {
        "6"
    } else if d == 7 {
        "7"
    } else if d == 8 {
        "8"
    } else {
        "9"
    };
    assert(r@ =~= seq![digit_char(d as nat)]);
    r
}

/// Appends `n` in decimal.
pub fn push_decimal(out: &mut String, n: u32)
    ensures
        final(out)@ == old(out)@ + decimal(n as nat),
    decreases n,
{
    if n >= 10 {
        push_decimal(out, n / 10);
    }
    out.append(digit_str(n % 10));
    assert(out@ =~= old(out)@ + decimal(n as nat));
}

/// What WMI reports of the operating system.
pub struct WmiOperatingSystem {
    /// The product name, such as `Microsoft Windows 11 Pro`.
    pub caption: String,
    /// The version, such as `10.0.22631`.
    pub version: String,
}

/// The version numbers the kernel reports.
pub struct WindowsVersion {
    pub major: u32,
    pub minor: u32,
    pub build: u32,
    /// The service-pack name, NUL-terminated within its buffer.
    pub csd_version: Vec<u16>,
}

/// `caption (version)`
pub open spec fn wmi_description(os: WmiOperatingSystem) -> Seq<char> {
    os.caption@ + seq![' ', '('] + os.version@ + seq![')']
}

/// The units of `s` before its first NUL (all of them if it has none).
pub open spec fn until_nul(s: Seq<u16>) -> Seq<u16>
    decreases s.len(),
{
    if s.len() == 0 {
        Seq::empty()
    } else if s[0] == 0 {
        Seq::empty()
    } else {
        seq![s[0]] + until_nul(s.drop_first())
    }
}

/// ` (service pack)`, or nothing when there is no service-pack name.
pub open spec fn service_pack_suffix(name: Seq<char>) -> Seq<char> {
    if name.len() == 0 {
        Seq::empty()
    } else {
        seq![' ', '('] + name + seq![')']
    }
}

/// `Windows major.minor.build`, followed by ` (name)` when `name` is not
/// empty.
pub open spec fn version_text(major: u32, minor: u32, build: u32, name: Seq<char>) -> Seq<char> {
    seq!['W', 'i', 'n', 'd', 'o', 'w', 's', ' '] + decimal(major as nat) + seq!['.'] + decimal(
        minor as nat,
    ) + seq!['.'] + decimal(build as nat) + service_pack_suffix(name)
}

/// `Windows major.minor.build`, followed by ` (service pack)` when there
/// is a service-pack name.
pub open spec fn version_description(v: WindowsVersion) -> Seq<char> {
    version_text(v.major, v.minor, v.build, utf16_lossy(until_nul(v.csd_version@)))
}

/// `Unknown`
pub open spec fn unknown_description() -> Seq<char> {
    seq!['U', 'n', 'k', 'n', 'o', 'w', 'n']
}

/// The description of the operating system: what WMI reported if it
/// answered, else the kernel's version numbers if they could be read, else
/// `Unknown`.
pub open spec fn os_description_spec(wmi: Option<WmiOperatingSystem>, version: Option<WindowsVersion>) -> Seq<
    char,
> {
    match wmi {
        Some(os) => wmi_description(os),
        None => match version {
            Some(v) => version_description(v),
            None => unknown_description(),
        },
    }
}

/// `caption (version)`, as built from a WMI answer.
pub fn describe_wmi_os(os: &WmiOperatingSystem) -> (r: String)
    ensures
        r@ == wmi_description(*os),
{
    let mut out = String::new();
    out.append(os.caption.as_str());
    proof {
        reveal_strlit(" (");
        reveal_strlit(")");
    }
    out.append(" (");
    out.append(os.version.as_str());
    out.append(")");
    assert(out@ =~= wmi_description(*os));
    out
}

/// The position of the first NUL in `s`, or its length.
fn nul_position(s: &[u16]) -> (r: usize)
    ensures
        r <= s@.len(),
        until_nul(s@) == s@.take(r as int),
{
    let n = s.len();
    let mut i: usize = 0;
    while i < n && s[i] != 0
        invariant
            n == s@.len(),
            i <= n,
            forall|j: int| 0 <= j < i ==> s@[j] != 0,
        decreases n - i,
    {
        i = i + 1;
    }
    proof {
        lemma_until_nul(s@, i as int);
    }
    i
}

proof fn lemma_until_nul(s: Seq<u16>, k: int)
    requires
        0 <= k <= s.len(),
        forall|j: int| 0 <= j < k ==> s[j] != 0,
        k == s.len() || s[k] == 0,
    ensures
        until_nul(s) == s.take(k),
    decreases k,
{
    if k == 0 {
        assert(s.take(0) =~= Seq::<u16>::empty());
    } else {
        let t = s.drop_first();
        assert forall|j: int| 0 <= j < k - 1 implies t[j] != 0 by {
            assert(t[j] == s[j + 1]);
        }
        if k < s.len() {
            assert(t[k - 1] == s[k]);
        }
        lemma_until_nul(t, k - 1);
        assert(s.take(k) =~= seq![s[0]] + t.take(k - 1));
    }
}

/// `Windows major.minor.build`, followed by ` (name)` when the service-pack
/// name `name` is not empty.
pub fn describe_version_with_name(v: &WindowsVersion, name: &str) -> (r: String)
    ensures
        r@ == version_text(v.major, v.minor, v.build, name@),
{
    let mut out = String::new();
    proof {
        reveal_strlit("Windows ");
        reveal_strlit(".");
        reveal_strlit(" (");
        reveal_strlit(")");
    }
    out.append("Windows ");
    push_decimal(&mut out, v.major);
    out.append(".");
    push_decimal(&mut out, v.minor);
    out.append(".");
    push_decimal(&mut out, v.build);
    if name.is_empty() {
    } else {
        out.append(" (");
        out.append(name);
        out.append(")");
    }
    assert(out@ =~= version_text(v.major, v.minor, v.build, name@));
    out
}

/// `Windows major.minor.build`, with ` (service pack)` when the kernel
/// names one.
pub fn describe_windows_version(v: &WindowsVersion) -> (r: String)
    ensures
        r@ == version_description(*v),
{
    let end = nul_position(v.csd_version.as_slice());
    let (name_units, _) = v.csd_version.as_slice().split_at(end);
    let name = decode_utf16_lossy(name_units);
    assert(name_units@ =~= until_nul(v.csd_version@));
    describe_version_with_name(v, name.as_str())
}

/// The description of the operating system from what WMI and the kernel
/// reported: WMI's caption and version when WMI answered, else the kernel's
/// version numbers when they could be read, else `Unknown`.
pub fn os_description(wmi: Option<WmiOperatingSystem>, version: Option<WindowsVersion>) -> (r: String)
    ensures
        r@ == os_description_spec(wmi, version),
{
    match wmi {
        Some(os) => describe_wmi_os(&os),
        None => match version {
            Some(v) => describe_windows_version(&v),
            None => {
                let mut out = String::new();
                proof {
                    reveal_strlit("Unknown");
                }
                out.append("Unknown");
                assert(out@ =~= unknown_description());
                out
            },
        },
    }
}

/// The number a string of decimal digits stands for, read most
/// significant digit first.
pub open spec fn decimal_value(s: Seq<char>) -> int
    decreases s.len(),
{
    if s.len() == 0 {
        0
    } else {
        decimal_value(s.drop_last()) * 10 + (s.last() as int - 0x30)
    }
}

/// The digit `d` is the character whose code is `0x30 + d`.
pub proof fn lemma_digit_char_code(d: nat)
    requires
        d < 10,
    ensures
        digit_char(d) as int == 0x30 + d,
{
}

/// `decimal(n)` is the base-10 rendering of `n`: it is made of the digits
/// `0`..=`9`, starts with `0` only when it is `0`, and read back as a
/// number it is `n`.
pub proof fn lemma_decimal_is_base_ten(n: nat)
    ensures
        decimal(n).len() >= 1,
        forall|i: int| 0 <= i < decimal(n).len() ==> 0x30 <= #[trigger] (decimal(n)[i] as int) <= 0x39,
        decimal(n)[0] == '0' ==> n == 0,
        decimal_value(decimal(n)) == n,
    decreases n,
{
    if n < 10 {
        lemma_digit_char_code(n);
        assert(decimal(n).drop_last() =~= Seq::<char>::empty());
        assert(decimal_value(decimal(n)) == decimal_value(Seq::<char>::empty()) * 10 + (digit_char(n) as int
            - 0x30));
    } else {
        lemma_decimal_is_base_ten(n / 10);
        lemma_digit_char_code(n % 10);
        let d = decimal(n);
        assert(d.drop_last() =~= decimal(n / 10));
        assert(d[0] == decimal(n / 10)[0]);
        assert forall|i: int| 0 <= i < d.len() implies 0x30 <= #[trigger] (d[i] as int) <= 0x39 by {
            if i < d.len() - 1 {
                assert(d[i] == decimal(n / 10)[i]);
            }
        }
        assert(d.last() == digit_char(n % 10));
        assert(decimal_value(d) == decimal_value(decimal(n / 10)) * 10 + (digit_char(n % 10) as int - 0x30));
        assert(n / 10 * 10 + n % 10 == n);
    }
}

} // verus!
