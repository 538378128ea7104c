//! Release checks for the self-updater: version comparison, the Debian
//! architecture name, and what a GitHub release description offers.
//!
//! Fetching the description, downloading and installing are done by the
//! program around this library.

use vstd::prelude::*;

use crate::json::{json_array_field, json_array_field_of, json_string_field, json_string_field_of, json_valid, json_valid_of};
use crate::text::{
    char_lines, chars_end_with, chars_of, copy_range, drop_leading, drop_trailing, ends_with,
    find_starting, first_starting, lines, push_str, split_chars, split_on,
    string_from_chars, text_lines, trim_char, trim_text, trimmed,
};

verus! {

pub open spec fn is_digit(c: char) -> bool {
    '0' <= c <= '9'
}

/// The number written by the decimal digits `ds`.
pub open spec fn digits_value(ds: Seq<char>) -> int
    decreases ds.len(),
{
    if ds.len() == 0 {
        0
    } else {
        digits_value(ds.drop_last()) * 10 + (ds.last() as int - '0' as int)
    }
}

/// What `str::parse::<u32>` reads from `t`: an optional `+`, then one or more
/// decimal digits whose value fits in 32 bits.
pub open spec fn parse_u32_spec(t: Seq<char>) -> Option<u32> {
    let body = number_body(t);
    if body.len() == 0 || !all_digits(body) || digits_value(body) > u32::MAX {
        None
    } else {
        Some(digits_value(body) as u32)
    }
}

/// A number's digits: the text without one leading `+`.
pub open spec fn number_body(t: Seq<char>) -> Seq<char> {
    if t.len() > 0 && t[0] == '+' {
        t.drop_first()
    } else {
        t
    }
}

/// Whether every character is a decimal digit.
pub open spec fn all_digits(s: Seq<char>) -> bool {
    forall|i: int| 0 <= i < s.len() ==> is_digit(#[trigger] s[i])
}

/// A list of zero or one number.
pub open spec fn opt_seq(o: Option<u32>) -> Seq<u32> {
    match o {
        Some(x) => seq![x],
        None => seq![],
    }
}

/// Reading `s` from the left: the numbers of the dot-separated parts already
/// closed (parts that do not read as a number are skipped), and the part
/// still open.
pub open spec fn scan_version(s: Seq<char>) -> (Seq<u32>, Seq<char>)
    decreases s.len(),
{
    if s.len() == 0 {
        (seq![], seq![])
    } else {
        let (vals, cur) = scan_version(s.drop_last());
        if s.last() == '.' {
            (vals + opt_seq(parse_u32_spec(cur)), seq![])
        } else {
            (vals, cur.push(s.last()))
        }
    }
}

/// The numbers of the dot-separated parts of `s` that read as numbers.
pub open spec fn version_numbers(s: Seq<char>) -> Seq<u32> {
    let (vals, cur) = scan_version(s);
    vals + opt_seq(parse_u32_spec(cur))
}

/// `s` without one leading `v`.
pub open spec fn strip_v(s: Seq<char>) -> Seq<char> {
    if s.len() > 0 && s[0] == 'v' {
        s.drop_first()
    } else {
        s
    }
}

pub open spec fn nth_or_zero(n: Seq<u32>, i: int) -> u32 {
    if i < n.len() {
        n[i]
    } else {
        0
    }
}

/// Major, minor and patch number of a version string such as `v1.2.3`;
/// missing numbers are 0.
pub open spec fn version_triple(s: Seq<char>) -> (u32, u32, u32) {
    let n = version_numbers(strip_v(s));
    (nth_or_zero(n, 0), nth_or_zero(n, 1), nth_or_zero(n, 2))
}

/// Lexicographic order of version triples.
pub open spec fn triple_gt(a: (u32, u32, u32), b: (u32, u32, u32)) -> bool {
    a.0 > b.0 || (a.0 == b.0 && (a.1 > b.1 || (a.1 == b.1 && a.2 > b.2)))
}

proof fn lemma_digits_value_grows(ds: Seq<char>, k: int)
    requires
        0 <= k <= ds.len(),
        forall|i: int| 0 <= i < ds.len() ==> is_digit(#[trigger] ds[i]),
    ensures
        digits_value(ds.take(k)) <= digits_value(ds),
        digits_value(ds) >= 0,
    decreases ds.len() - k,
{
    lemma_digits_value_nonneg(ds);
    if k < ds.len() {
        lemma_digits_value_grows(ds, k + 1);
        let p = ds.take(k + 1);
        assert(p.drop_last() =~= ds.take(k));
        lemma_digits_value_nonneg(ds.take(k));
        assert(is_digit(p.last()));
    } else {
        assert(ds.take(k) =~= ds);
    }
}

proof fn lemma_digits_value_nonneg(ds: Seq<char>)
    requires
        forall|i: int| 0 <= i < ds.len() ==> is_digit(#[trigger] ds[i]),
    ensures
        digits_value(ds) >= 0,
    decreases ds.len(),
{
    if ds.len() > 0 {
        assert(is_digit(ds[ds.len() - 1]));
        lemma_digits_value_nonneg(ds.drop_last());
    }
}

/// Reads a 32-bit number as `str::parse::<u32>` does.
pub fn parse_u32(t: &[char]) -> (n: Option<u32>)
    ensures
        n == parse_u32_spec(t@),
{
    let start: usize = if t.len() > 0 && t[0] == '+' {
        1
    } else {
        0
    };
    let ghost body = number_body(t@);
    assert(body =~= t@.skip(start as int));
    if start == t.len() {
        return None;
    }
    let mut value: u64 = 0;
    let mut i: usize = start;
    while i < t.len()
        invariant
            start <= i <= t@.len(),
            body == t@.skip(start as int),
            body == number_body(t@),
            body.len() > 0,
            forall|k: int| 0 <= k < i - start ==> is_digit(#[trigger] body[k]),
            value == digits_value(body.take(i - start)),
            value <= u32::MAX,
        decreases t@.len() - i,
    {
        let c = t[i];
        assert(body[i - start] == t@[i as int]);
        if !('0' <= c && c <= '9') {
            assert(!is_digit(body[i - start]));
            return None;
        }
        let d = (c as u32 - '0' as u32) as u64;
        let ghost k = i - start;
        assert(body.take(k + 1).drop_last() =~= body.take(k));
        assert(body.take(k + 1).last() == c);
        value = value * 10 + d;
        assert(value == digits_value(body.take(k + 1)));
        i += 1;
        if value > 0xFFFF_FFFFu64 {
            proof {
                if all_digits(body) {
                    lemma_digits_value_grows(body, k + 1);
                }
            }
            return None;
        }
    }
    assert(body.take(body.len() as int) =~= body);
    Some(value as u32)
}

/// The major, minor and patch number of a version string such as `v1.2.3`.
pub fn parse_version(s: &str) -> (v: (u32, u32, u32))
    ensures
        v == version_triple(s@),
{
    let chars = chars_of(s);
    let start: usize = if chars.len() > 0 && chars[0] == 'v' {
        1
    } else {
        0
    };
    let ghost t = strip_v(s@);
    assert(t =~= chars@.skip(start as int));
    let mut vals: Vec<u32> = Vec::new();
    let mut cur: Vec<char> = Vec::new();
    let mut i: usize = start;
    assert(t.take(0) =~= Seq::<char>::empty());
    while i < chars.len()
        invariant
            start <= i <= chars@.len(),
            t == chars@.skip(start as int),
            (vals@, cur@) == scan_version(t.take(i - start)),
        decreases chars@.len() - i,
    {
        let c = chars[i];
        let ghost k = i - start;
        assert(t.take(k + 1).drop_last() =~= t.take(k));
        assert(t.take(k + 1).last() == c);
        if c == '.' {
            match parse_u32(cur.as_slice()) {
                Some(n) => {
                    vals.push(n);
                },
                None => {},
            }
            cur = Vec::new();
            assert(vals@ =~= scan_version(t.take(k + 1)).0);
            assert(cur@ =~= scan_version(t.take(k + 1)).1);
        } else {
            cur.push(c);
        }
        i += 1;
    }
    assert(t.take(t.len() as int) =~= t);
    match parse_u32(cur.as_slice()) {
        Some(n) => {
            vals.push(n);
        },
        None => {},
    }
    assert(vals@ =~= version_numbers(t));
    let major = if vals.len() > 0 {
        vals[0]
    } else {
        0
    };
    let minor = if vals.len() > 1 {
        vals[1]
    } else {
        0
    };
    let patch = if vals.len() > 2 {
        vals[2]
    } else {
        0
    };
    (major, minor, patch)
}

/// Whether version `latest` is newer than version `current`.
pub fn is_newer(latest: &str, current: &str) -> (newer: bool)
    ensures
        newer == triple_gt(version_triple(latest@), version_triple(current@)),
{
    let a = parse_version(latest);
    let b = parse_version(current);
    a.0 > b.0 || (a.0 == b.0 && (a.1 > b.1 || (a.1 == b.1 && a.2 > b.2)))
}

/// "Newer than" is a strict order: no version is newer than itself, and it
/// is transitive.
pub proof fn lemma_newer_is_strict_order(a: Seq<char>, b: Seq<char>, c: Seq<char>)
    ensures
        !triple_gt(version_triple(a), version_triple(a)),
        triple_gt(version_triple(a), version_triple(b)) ==> !triple_gt(
            version_triple(b),
            version_triple(a),
        ),
        triple_gt(version_triple(a), version_triple(b)) && triple_gt(
            version_triple(b),
            version_triple(c),
        ) ==> triple_gt(version_triple(a), version_triple(c)),
{
}

/// The Debian architecture name of a machine name.
pub open spec fn arch_name(machine: Seq<char>) -> Seq<char> {
    if machine == "x86_64"@ {
        "amd64"@
    } else if machine == "aarch64"@ {
        "arm64"@
    } else {
        machine
    }
}

/// The Debian architecture name for the output of `uname -m`.
pub fn deb_arch(uname_output: &str) -> (arch: String)
    ensures
        arch@ == arch_name(trimmed(uname_output@)),
{
    let machine = trim_text(uname_output);
    if crate::text::str_eq(machine.as_str(), "x86_64") {
        String::from_str("amd64")
    } else if crate::text::str_eq(machine.as_str(), "aarch64") {
        String::from_str("arm64")
    } else {
        machine
    }
}

/// One asset of a release description.
pub struct AssetFields {
    pub name: Option<String>,
    pub url: Option<String>,
}

/// The fields of a release description that the updater reads.
pub struct ReleaseFields {
    pub message: Option<String>,
    pub tag_name: Option<String>,
    pub assets: Option<Vec<AssetFields>>,
}

pub struct AssetModel {
    pub name: Option<Seq<char>>,
    pub url: Option<Seq<char>>,
}

pub struct ReleaseModel {
    pub message: Option<Seq<char>>,
    pub tag_name: Option<Seq<char>>,
    pub assets: Option<Seq<AssetModel>>,
}

pub open spec fn text_model(s: Option<String>) -> Option<Seq<char>> {
    match s {
        Some(x) => Some(x@),
        None => None,
    }
}

impl View for AssetFields {
    type V = AssetModel;

    open spec fn view(&self) -> AssetModel {
        AssetModel { name: text_model(self.name), url: text_model(self.url) }
    }
}

impl View for ReleaseFields {
    type V = ReleaseModel;

    open spec fn view(&self) -> ReleaseModel {
        ReleaseModel {
            message: text_model(self.message),
            tag_name: text_model(self.tag_name),
            assets: match self.assets {
                Some(a) => Some(a@.map_values(|x: AssetFields| x@)),
                None => None,
            },
        }
    }
}

pub open spec fn release_fields_model(f: Option<ReleaseFields>) -> Option<ReleaseModel> {
    match f {
        Some(x) => Some(x@),
        None => None,
    }
}

/// What a release description says of one asset, from the asset's JSON
/// text.
pub open spec fn asset_model(t: Seq<char>) -> AssetModel {
    AssetModel {
        name: json_string_field(t, "name"@),
        url: json_string_field(t, "browser_download_url"@),
    }
}

/// What the updater reads from a GitHub release description: `None` when
/// the text is not JSON; otherwise the string fields `message` and
/// `tag_name`, and, when `assets` is an array, each asset's string fields
/// `name` and `browser_download_url`.
pub open spec fn release_model(text: Seq<char>) -> Option<ReleaseModel> {
    if !json_valid(text) {
        None
    } else {
        Some(
            ReleaseModel {
                message: json_string_field(text, "message"@),
                tag_name: json_string_field(text, "tag_name"@),
                assets: match json_array_field(text, "assets"@) {
                    Some(items) => Some(items.map_values(|t: Seq<char>| asset_model(t))),
                    None => None,
                },
            },
        )
    }
}

/// Reads the fields of a release description that the updater uses.
pub fn release_fields(body: &str) -> (f: Option<ReleaseFields>)
    ensures
        release_fields_model(f) == release_model(body@),
{
    if !json_valid_of(body) {
        return None;
    }
    let message = json_string_field_of(body, "message");
    let tag_name = json_string_field_of(body, "tag_name");
    let assets = match json_array_field_of(body, "assets") {
        Some(items) => {
            let ghost texts = items@.map_values(|x: String| x@);
            let mut out: Vec<AssetFields> = Vec::new();
            let mut i: usize = 0;
            while i < items.len()
                invariant
                    i <= items@.len(),
                    out@.len() == i,
                    texts == items@.map_values(|x: String| x@),
                    forall|k: int| 0 <= k < i ==> (#[trigger] out@[k])@ == asset_model(texts[k]),
                decreases items@.len() - i,
            {
                let t = items[i].as_str();
                let a = AssetFields {
                    name: json_string_field_of(t, "name"),
                    url: json_string_field_of(t, "browser_download_url"),
                };
                assert(texts[i as int] == items@[i as int]@);
                out.push(a);
                i += 1;
            }
            assert(out@.map_values(|x: AssetFields| x@) =~= texts.map_values(
                |t: Seq<char>| asset_model(t),
            ));
            Some(out)
        },
        None => None,
    };
    Some(ReleaseFields { message, tag_name, assets })
}

/// A published release: its version, and its Debian package for this
/// architecture when it has one.
#[derive(Debug, Clone)]
pub struct Release {
    pub version: String,
    pub deb_url: Option<String>,
    pub deb_name: Option<String>,
}

/// Why a release description was refused.
#[derive(Debug, Clone)]
pub enum UpdateError {
    /// The response is not JSON.
    UnreadableResponse,
    /// GitHub answered with an error message.
    ApiError(String),
    /// The release has no tag.
    NoTagName,
}

/// The package formats releases are published in.
#[derive(Debug, Clone, Copy, PartialEq, Eq, Structural)]
pub enum PackageFormat {
    /// Debian, Ubuntu and their derivatives: `.deb`, installed with `dpkg`.
    Deb,
    /// Fedora, RHEL and their derivatives: `.rpm`, installed with `dnf`.
    Rpm,
    /// Arch Linux and its derivatives: `.pkg.tar.zst`, installed with
    /// `pacman`.
    Arch,
}

/// The package format of a distribution named in `/etc/os-release`.
pub open spec fn format_of_name(w: Seq<char>) -> Option<PackageFormat> {
    if w == "debian"@ || w == "ubuntu"@ {
        Some(PackageFormat::Deb)
    } else if w == "fedora"@ || w == "rhel"@ || w == "centos"@ {
        Some(PackageFormat::Rpm)
    } else if w == "arch"@ {
        Some(PackageFormat::Arch)
    } else {
        None
    }
}

/// The format of the first of `ws` that names a known distribution.
pub open spec fn first_format(ws: Seq<Seq<char>>) -> Option<PackageFormat>
    decreases ws.len(),
{
    if ws.len() == 0 {
        None
    } else {
        match format_of_name(ws[0]) {
            Some(f) => Some(f),
            None => first_format(ws.drop_first()),
        }
    }
}

/// The value of `key` in the text of `/etc/os-release`: the first line
/// `key=value`, the double quotes around the value removed.
pub open spec fn os_release_value(text: Seq<char>, key: Seq<char>) -> Option<Seq<char>> {
    match first_starting(lines(text), key.push('=')) {
        Some(l) => Some(drop_trailing(drop_leading(l.skip(key.len() as int + 1), '"'), '"')),
        None => None,
    }
}

/// The distribution's own name (`ID`), then the names of those it derives
/// from (`ID_LIKE`, separated by spaces).
pub open spec fn distro_names(text: Seq<char>) -> Seq<Seq<char>> {
    let own = match os_release_value(text, "ID"@) {
        Some(v) => seq![v],
        None => Seq::empty(),
    };
    let like = match os_release_value(text, "ID_LIKE"@) {
        Some(v) => split_on(v, ' '),
        None => Seq::empty(),
    };
    own + like
}

/// The package format for the system described by `/etc/os-release`: that
/// of the distribution or of the first it derives from that is known;
/// Debian's when none is, or when the file could not be read.
pub open spec fn system_package_format(os_release: Option<Seq<char>>) -> PackageFormat {
    match os_release {
        Some(text) => match first_format(distro_names(text)) {
            Some(f) => f,
            None => PackageFormat::Deb,
        },
        None => PackageFormat::Deb,
    }
}

/// The file name ending of a release's package for `format` on the
/// machine `machine` (as `uname -m` names it): Debian packages carry the
/// Debian architecture name, the others the machine name.
pub open spec fn package_suffix(format: PackageFormat, machine: Seq<char>) -> Seq<char> {
    match format {
        PackageFormat::Deb => "_"@ + arch_name(machine) + ".deb"@,
        PackageFormat::Rpm => "."@ + machine + ".rpm"@,
        PackageFormat::Arch => "-"@ + machine + ".pkg.tar.zst"@,
    }
}

/// The file extension of a package format.
pub open spec fn format_extension(format: PackageFormat) -> Seq<char> {
    match format {
        PackageFormat::Deb => ".deb"@,
        PackageFormat::Rpm => ".rpm"@,
        PackageFormat::Arch => ".pkg.tar.zst"@,
    }
}

/// The first asset whose name (empty when absent) ends with `suffix`,
/// from position `i` on: its name and download link.
pub open spec fn first_matching_asset(assets: Seq<AssetModel>, suffix: Seq<char>, i: int) -> (
    Option<Seq<char>>,
    Option<Seq<char>>,
)
    decreases assets.len() - i,
{
    if i >= assets.len() || i < 0 {
        (None, None)
    } else {
        let name = match assets[i].name {
            Some(n) => n,
            None => seq![],
        };
        if ends_with(name, suffix) {
            (Some(name), assets[i].url)
        } else {
            first_matching_asset(assets, suffix, i + 1)
        }
    }
}

/// The package that a release offers whose name ends with `suffix`: name
/// and link.
pub open spec fn chosen_package(m: ReleaseModel, suffix: Seq<char>) -> (
    Option<Seq<char>>,
    Option<Seq<char>>,
) {
    match m.assets {
        Some(a) => first_matching_asset(a, suffix, 0),
        None => (None, None),
    }
}

/// Whether `r` is what a release description `f` says of the package whose
/// name ends with `suffix`.
pub open spec fn release_result_ok(
    f: Option<ReleaseModel>,
    suffix: Seq<char>,
    r: Result<Release, UpdateError>,
) -> bool {
    match f {
        None => r matches Err(UpdateError::UnreadableResponse),
        Some(m) => match m.message {
            Some(msg) => r matches Err(UpdateError::ApiError(x)) && x@ == msg,
            None => match m.tag_name {
                None => r matches Err(UpdateError::NoTagName),
                Some(tag) => r matches Ok(rel) && rel.version@ == strip_v(tag) && (
                text_model(rel.deb_name), text_model(rel.deb_url)) == chosen_package(m, suffix),
            },
        },
    }
}

/// Decides what a release description offers: its version, and the first
/// package whose name ends with `suffix`.
pub fn select_release(fields: Option<ReleaseFields>, suffix: &str) -> (r: Result<Release, UpdateError>)
    ensures
        release_result_ok(release_fields_model(fields), suffix@, r),
{
    let fields = match fields {
        Some(f) => f,
        None => return Err(UpdateError::UnreadableResponse),
    };
    let ghost m = fields@;
    if let Some(msg) = fields.message {
        return Err(UpdateError::ApiError(msg));
    }
    let tag = match fields.tag_name {
        Some(t) => t,
        None => return Err(UpdateError::NoTagName),
    };
    let tag_chars = chars_of(tag.as_str());
    let version = if tag_chars.len() > 0 && tag_chars[0] == 'v' {
        tag.as_str().substring_char(1, tag_chars.len()).to_owned()
    } else {
        tag.as_str().to_owned()
    };
    assert(version@ =~= strip_v(tag@));
    let suffix_chars = chars_of(suffix);
    let mut deb_url: Option<String> = None;
    let mut deb_name: Option<String> = None;
    match fields.assets {
        Some(assets) => {
            let ghost am = assets@.map_values(|x: AssetFields| x@);
            assert(m.assets == Some(am));
            let mut assets = assets;
            let mut i: usize = 0;
            while i < assets.len()
                invariant_except_break
                    deb_url is None && deb_name is None,
                    am == assets@.map_values(|x: AssetFields| x@),
                    first_matching_asset(am, suffix@, 0) == first_matching_asset(
                        am,
                        suffix@,
                        i as int,
                    ),
                invariant
                    i <= am.len(),
                    suffix_chars@ == suffix@,
                ensures
                    (text_model(deb_name), text_model(deb_url)) == first_matching_asset(
                        am,
                        suffix@,
                        0,
                    ),
                decreases am.len() - i,
            {
                let name_chars = match &assets[i].name {
                    Some(n) => chars_of(n.as_str()),
                    None => Vec::new(),
                };
                assert(am[i as int] == assets@[i as int]@);
                assert(name_chars@ == match am[i as int].name {
                    Some(n) => n,
                    None => Seq::<char>::empty(),
                });
                if chars_end_with(name_chars.as_slice(), suffix_chars.as_slice()) {
                    let a = assets.swap_remove(i);
                    deb_name = match a.name {
                        Some(n) => Some(n),
                        None => Some(String::new()),
                    };
                    deb_url = a.url;
                    break;
                }
                i += 1;
            }
        },
        None => {
            assert(chosen_package(m, suffix@) == (None::<Seq<char>>, None::<Seq<char>>));
        },
    }
    Ok(Release { version, deb_url, deb_name })
}

/// Reads a GitHub release description and decides what it offers: its
/// version, and the first package whose name ends with `suffix`.
pub fn parse_release(body: &str, suffix: &str) -> (r: Result<Release, UpdateError>)
    ensures
        release_result_ok(release_model(body@), suffix@, r),
{
    select_release(release_fields(body), suffix)
}

/// The value of `key` in the lines `ls` of `/etc/os-release`.
fn os_release_value_in(ls: &Vec<Vec<char>>, key: &str) -> (v: Option<Vec<char>>)
    ensures
        match v {
            Some(x) => first_starting(char_lines(ls@), key@.push('=')) matches Some(l) && x@
                == drop_trailing(drop_leading(l.skip(key@.len() as int + 1), '"'), '"'),
            None => first_starting(char_lines(ls@), key@.push('=')) is None,
        },
{
    let mut prefix = chars_of(key);
    prefix.push('=');
    match find_starting(ls, prefix.as_slice()) {
        Some(k) => {
            let line = &ls[k];
            proof {
                crate::text::lemma_first_starting_starts(char_lines(ls@), prefix@);
            }
            let rest = copy_range(line.as_slice(), prefix.len(), line.len());
            assert(rest@ =~= line@.skip(key@.len() as int + 1));
            Some(trim_char(rest.as_slice(), '"'))
        },
        None => None,
    }
}

/// The package format of a distribution name.
fn format_of(name: &Vec<char>) -> (f: Option<PackageFormat>)
    ensures
        f == format_of_name(name@),
{
    let s = string_from_chars(name.as_slice());
    let t = s.as_str();
    if crate::text::str_eq(t, "debian") || crate::text::str_eq(t, "ubuntu") {
        Some(PackageFormat::Deb)
    } else if crate::text::str_eq(t, "fedora") || crate::text::str_eq(t, "rhel")
        || crate::text::str_eq(t, "centos") {
        Some(PackageFormat::Rpm)
    } else if crate::text::str_eq(t, "arch") {
        Some(PackageFormat::Arch)
    } else {
        None
    }
}

/// The package format for the system, from the text of `/etc/os-release`
/// when it could be read.
pub fn package_format(os_release: Option<&str>) -> (f: PackageFormat)
    ensures
        f == system_package_format(
            match os_release {
                Some(t) => Some(t@),
                None => None,
            },
        ),
{
    let text = match os_release {
        Some(t) => t,
        None => return PackageFormat::Deb,
    };
    let ls = text_lines(text);
    let mut names: Vec<Vec<char>> = Vec::new();
    match os_release_value_in(&ls, "ID") {
        Some(v) => names.push(v),
        None => {},
    }
    let ghost own = char_lines(names@);
    match os_release_value_in(&ls, "ID_LIKE") {
        Some(v) => {
            let parts = split_chars(v.as_slice(), ' ');
            let mut j: usize = 0;
            while j < parts.len()
                invariant
                    j <= parts@.len(),
                    char_lines(names@) == own + char_lines(parts@).take(j as int),
                decreases parts@.len() - j,
            {
                let ghost before = names@;
                let x = copy_range(parts[j].as_slice(), 0, parts[j].len());
                assert(x@ =~= parts@[j as int]@);
                names.push(x);
                assert(char_lines(names@) =~= char_lines(before).push(x@));
                assert(char_lines(parts@).take(j + 1) =~= char_lines(parts@).take(j as int).push(
                    parts@[j as int]@,
                ));
                assert(char_lines(names@) =~= own + char_lines(parts@).take(j + 1));
                j += 1;
            }
            assert(char_lines(parts@).take(parts@.len() as int) =~= char_lines(parts@));
        },
        None => {
            assert(char_lines(names@) =~= own + Seq::<Seq<char>>::empty());
        },
    }
    assert(char_lines(names@) =~= distro_names(text@));
    let ghost all = char_lines(names@);
    let mut i: usize = 0;
    assert(all.skip(0) =~= all);
    while i < names.len()
        invariant
            i <= names@.len(),
            all == char_lines(names@),
            all == distro_names(text@),
            os_release == Some(text),
            first_format(all) == first_format(all.skip(i as int)),
        decreases names@.len() - i,
    {
        assert(all.skip(i as int)[0] == names@[i as int]@);
        assert(all.skip(i as int).drop_first() =~= all.skip(i + 1));
        if let Some(f) = format_of(&names[i]) {
            return f;
        }
        i += 1;
    }
    assert(all.skip(i as int) =~= Seq::<Seq<char>>::empty());
    PackageFormat::Deb
}

/// The file name ending of the release package to install, for `format`
/// and the output of `uname -m`.
pub fn package_suffix_for(format: PackageFormat, uname_output: &str) -> (s: String)
    ensures
        s@ == package_suffix(format, trimmed(uname_output@)),
{
    let mut buf: Vec<char> = Vec::new();
    match format {
        PackageFormat::Deb => {
            push_str(&mut buf, "_");
            let arch = deb_arch(uname_output);
            push_str(&mut buf, arch.as_str());
            push_str(&mut buf, ".deb");
        },
        PackageFormat::Rpm => {
            push_str(&mut buf, ".");
            let machine = trim_text(uname_output);
            push_str(&mut buf, machine.as_str());
            push_str(&mut buf, ".rpm");
        },
        PackageFormat::Arch => {
            push_str(&mut buf, "-");
            let machine = trim_text(uname_output);
            push_str(&mut buf, machine.as_str());
            push_str(&mut buf, ".pkg.tar.zst");
        },
    }
    assert(buf@ =~= package_suffix(format, trimmed(uname_output@)));
    string_from_chars(buf.as_slice())
}

/// The file extension of a package format.
pub fn extension_of(format: PackageFormat) -> (e: &'static str)
    ensures
        e@ == format_extension(format),
{
    match format {
        PackageFormat::Deb => ".deb",
        PackageFormat::Rpm => ".rpm",
        PackageFormat::Arch => ".pkg.tar.zst",
    }
}

/// The command, with its arguments, that installs a package of `format`;
/// the package's path follows them.
pub open spec fn installer(format: PackageFormat) -> Seq<Seq<char>> {
    match format {
        PackageFormat::Deb => seq!["sudo"@, "dpkg"@, "-i"@],
        PackageFormat::Rpm => seq!["sudo"@, "dnf"@, "install"@],
        PackageFormat::Arch => seq!["sudo"@, "pacman"@, "-U"@],
    }
}

/// The command, with its arguments, that installs a package of `format`.
pub fn install_command(format: PackageFormat) -> (cmd: Vec<&'static str>)
    ensures
        cmd@.map_values(|w: &'static str| w@) == installer(format),
{
    let cmd = match format {
        PackageFormat::Deb => vec!["sudo", "dpkg", "-i"],
        PackageFormat::Rpm => vec!["sudo", "dnf", "install"],
        PackageFormat::Arch => vec!["sudo", "pacman", "-U"],
    };
    assert(cmd@.map_values(|w: &'static str| w@) =~= installer(format));
    cmd
}

/// Whether the answer to the install question accepts: `y` or `Y`, white
/// space around it aside.
pub fn is_yes(answer: &str) -> (yes: bool)
    ensures
        yes == (trimmed(answer@) == "y"@ || trimmed(answer@) == "Y"@),
{
    let t = trim_text(answer);
    crate::text::str_eq(t.as_str(), "y") || crate::text::str_eq(t.as_str(), "Y")
}

/// Where the downloaded package is stored before it is installed: under
/// its own name, or `motu-mk5` with the format's extension.
pub open spec fn install_path(deb_name: Option<Seq<char>>, format: PackageFormat) -> Seq<char> {
    "/tmp/"@ + match deb_name {
        Some(n) => n,
        None => "motu-mk5"@ + format_extension(format),
    }
}

/// What an update does with the latest release.
#[derive(Debug, Clone)]
pub enum UpdatePlan {
    /// The installed version is the latest.
    UpToDate,
    /// A newer release exists but offers no package for this machine.
    NoPackage,
    /// Download the package from `url` to `dest`, then install it.
    Install { url: String, dest: String },
}

/// Decides what an update does, given the latest release, the installed
/// version `current` and the system's package format.
pub fn plan_update(release: &Release, current: &str, format: PackageFormat) -> (plan: UpdatePlan)
    ensures
        !triple_gt(version_triple(release.version@), version_triple(current@)) ==> plan is UpToDate,
        triple_gt(version_triple(release.version@), version_triple(current@))
            && release.deb_url is None ==> plan is NoPackage,
        triple_gt(version_triple(release.version@), version_triple(current@))
            && release.deb_url is Some ==> (plan matches UpdatePlan::Install { url, dest } && Some(
            url@,
        ) == text_model(release.deb_url) && dest@ == install_path(text_model(release.deb_name), format)),
{
    if !is_newer(release.version.as_str(), current) {
        return UpdatePlan::UpToDate;
    }
    match &release.deb_url {
        None => UpdatePlan::NoPackage,
        Some(url) => {
            let mut buf: Vec<char> = Vec::new();
            crate::text::push_str(&mut buf, "/tmp/");
            match &release.deb_name {
                Some(n) => crate::text::push_str(&mut buf, n.as_str()),
                None => {
                    crate::text::push_str(&mut buf, "motu-mk5");
                    crate::text::push_str(&mut buf, extension_of(format));
                },
            }
            assert(buf@ =~= install_path(text_model(release.deb_name), format));
            UpdatePlan::Install {
                url: url.clone(),
                dest: crate::text::string_from_chars(buf.as_slice()),
            }
        },
    }
}

/// Versions compare major first, then minor, then patch: a greater major
/// is newer whatever the rest, an equal major with a greater minor is newer
/// whatever the patch, and only with equal major and minor does the patch
/// decide.
pub proof fn lemma_newer_lexicographic(a: (u32, u32, u32), b: (u32, u32, u32))
    ensures
        a.0 > b.0 ==> triple_gt(a, b),
        a.0 < b.0 ==> !triple_gt(a, b),
        a.0 == b.0 && a.1 > b.1 ==> triple_gt(a, b),
        a.0 == b.0 && a.1 < b.1 ==> !triple_gt(a, b),
        a.0 == b.0 && a.1 == b.1 ==> (triple_gt(a, b) <==> a.2 > b.2),
{
}

} // verus!
