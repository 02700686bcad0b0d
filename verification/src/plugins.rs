//! Plugin manifests and their validation vocabulary.

use vstd::prelude::*;

use crate::text::str_eq;
use vstd::string::StrSliceExecFns;

verus! {

/// A plugin's self-description. Dependency pins are carried as
/// name–version pairs.
#[derive(Debug)]
pub struct PluginManifest {
    pub name: String,
    pub version: String,
    pub description: Option<String>,
    pub author: Option<String>,
    pub homepage: Option<String>,
    pub repository: Option<String>,
    pub license: Option<String>,
    pub keywords: Vec<String>,
    pub entry: String,
    pub permissions: Vec<PluginPermission>,
    pub api_version: String,
    pub min_jeantrail_version: String,
    pub max_jeantrail_version: Option<String>,
    pub dependencies: Vec<(String, String)>,
    pub resources: PluginResources,
}

/// One permission a plugin asks for.
#[derive(Debug)]
pub struct PluginPermission {
    pub name: String,
    pub description: String,
    pub required: bool,
}

/// The static files a plugin ships.
#[derive(Debug)]
pub struct PluginResources {
    pub css_files: Vec<String>,
    pub js_files: Vec<String>,
    pub assets: Vec<String>,
    pub icons: PluginIcons,
}

/// A plugin's icons by size.
#[derive(Debug)]
pub struct PluginIcons {
    pub icon_16x16: Option<String>,
    pub icon_32x32: Option<String>,
    pub icon_48x48: Option<String>,
    pub icon_128x128: Option<String>,
}

/// Filters for a plugin listing.
#[derive(Debug)]
pub struct ListPluginsQuery {
    pub is_active: Option<bool>,
    pub is_system: Option<bool>,
    pub author: Option<String>,
}

/// A request to install a plugin from a URL.
#[derive(Debug)]
pub struct InstallPluginRequest {
    pub url: String,
    pub auto_activate: bool,
}

/// The fixed set of permission names a manifest may ask for.
pub open spec fn spec_valid_permission(p: Seq<char>) -> bool {
    ||| p == "jean.chat"@
    ||| p == "jean.actions"@
    ||| p == "tabs.read"@
    ||| p == "tabs.write"@
    ||| p == "proxy.read"@
    ||| p == "proxy.write"@
    ||| p == "files.read"@
    ||| p == "files.write"@
    ||| p == "network.request"@
    ||| p == "storage.read"@
    ||| p == "storage.write"@
    ||| p == "ui.panel"@
    ||| p == "ui.modal"@
    ||| p == "notifications.show"@
}

/// Index of the first `'.'` in `s`, or `s.len()` when there is none.
pub open spec fn spec_first_dot(s: Seq<char>) -> int
    decreases s.len(),
{
    if s.len() == 0 {
        0
    } else if s[0] == '.' {
        0
    } else {
        1 + spec_first_dot(s.skip(1))
    }
}

/// What `spec_first_dot` points at: an in-range position, a `'.'`
/// unless the string has none, and no dot before it.
proof fn lemma_first_dot(s: Seq<char>)
    ensures
        0 <= spec_first_dot(s) <= s.len(),
        spec_first_dot(s) < s.len() ==> s[spec_first_dot(s)] == '.',
        forall|j: int| 0 <= j < spec_first_dot(s) ==> s[j] != '.',
    decreases s.len(),
{
    if s.len() > 0 && s[0] != '.' {
        lemma_first_dot(s.skip(1));
        assert forall|j: int| 0 <= j < spec_first_dot(s) implies s[j] != '.' by {
            if j > 0 {
                assert(s.skip(1)[j - 1] == s[j]);
            }
        }
    }
}

/// The `'.'`-separated segments of `s`, in order: one segment more than
/// there are dots, empty segments included.
pub open spec fn spec_split_dots(s: Seq<char>) -> Seq<Seq<char>>
    decreases s.len(),
    via spec_split_dots_decreases
{
    let i = spec_first_dot(s);
    if i == s.len() {
        seq![s]
    } else {
        seq![s.subrange(0, i)] + spec_split_dots(s.skip(i + 1))
    }
}

#[via_fn]
proof fn spec_split_dots_decreases(s: Seq<char>) {
    lemma_first_dot(s);
}

/// A decimal digit.
pub open spec fn spec_is_digit(c: char) -> bool {
    48 <= c as int <= 57
}

/// The numeric value of a digit character.
pub open spec fn spec_digit_value(c: char) -> nat {
    ((c as int) - 48) as nat
}

/// The number a run of digit characters denotes, most significant
/// first.
pub open spec fn spec_digits_value(s: Seq<char>) -> nat
    decreases s.len(),
{
    if s.len() == 0 {
        0
    } else {
        spec_digits_value(s.drop_last()) * 10 + spec_digit_value(s.last())
    }
}

/// A numeric segment without its optional leading `'+'`.
pub open spec fn spec_parse_body(seg: Seq<char>) -> Seq<char> {
    if seg.len() > 0 && seg[0] == '+' {
        seg.skip(1)
    } else {
        seg
    }
}

/// What `str::parse::<u32>` accepts: an optional leading `'+'`, then at
/// least one digit, denoting a value no larger than `u32::MAX`.
pub open spec fn spec_u32_parse_ok(seg: Seq<char>) -> bool {
    &&& seg.len() > 0
    &&& spec_parse_body(seg).len() > 0
    &&& forall|j: int|
        0 <= j < spec_parse_body(seg).len() ==> spec_is_digit(#[trigger] spec_parse_body(seg)[j])
    &&& spec_digits_value(spec_parse_body(seg)) <= u32::MAX
}

/// A well-formed plugin version: exactly three `'.'`-separated
/// segments, each of which parses as a `u32`.
pub open spec fn spec_valid_version(s: Seq<char>) -> bool {
    let parts = spec_split_dots(s);
    parts.len() == 3 && spec_u32_parse_ok(parts[0]) && spec_u32_parse_ok(parts[1])
        && spec_u32_parse_ok(parts[2])
}

/// Index of the first `'.'` of `s`, or its length when it has none.
fn first_dot(s: &str) -> (r: usize)
    ensures
        r as int == spec_first_dot(s@),
{
    let n = s.unicode_len();
    let mut i: usize = 0;
    while i < n
        invariant
            n == s@.len(),
            i <= n,
            forall|j: int| 0 <= j < i ==> s@[j] != '.',
        decreases n - i,
    {
        if s.get_char(i) == '.' {
            proof {
                lemma_first_dot(s@);
                let fd = spec_first_dot(s@);
                if fd < i {
                    assert(s@[fd] != '.');
                }
                if fd > i {
                    assert(s@[i as int] != '.');
                }
            }
            return i;
        }
        i = i + 1;
    }
    proof {
        lemma_first_dot(s@);
        let fd = spec_first_dot(s@);
        if fd < n {
            assert(s@[fd] != '.');
        }
    }
    n
}

/// Splits at dots, eagerly, one owned segment each.
fn split_dots(s: &str) -> (r: Vec<String>)
    ensures
        r@.len() == spec_split_dots(s@).len(),
        forall|i: int| 0 <= i < r@.len() ==> (#[trigger] r@[i])@ == spec_split_dots(s@)[i],
    decreases s@.len(),
{
    proof {
        lemma_first_dot(s@);
    }
    let n = s.unicode_len();
    let i = first_dot(s);
    if i == n {
        let mut v: Vec<String> = Vec::new();
        v.push(s.to_owned());
        v
    } else {
        let head = s.substring_char(0, i).to_owned();
        let rest = s.substring_char(i + 1, n);
        proof {
            assert(rest@ =~= s@.skip(i as int + 1));
        }
        let mut v = split_dots(rest);
        v.insert(0, head);
        proof {
            assert forall|k: int| 0 <= k < v@.len() implies (#[trigger] v@[k])@ == spec_split_dots(
                s@,
            )[k] by {
                if k == 0 {
                } else {
                    assert(v@[k] == v@.subrange(1, v@.len() as int)[k - 1]);
                }
            }
        }
        v
    }
}

/// Whether a segment parses as a `u32`: an optional `'+'`, then digits
/// denoting a value that fits.
fn parses_as_u32(seg: &str) -> (r: bool)
    ensures
        r == spec_u32_parse_ok(seg@),
{
    let n = seg.unicode_len();
    if n == 0 {
        return false;
    }
    let start: usize = if seg.get_char(0) == '+' {
        1
    } else {
        0
    };
    if n == start {
        return false;
    }
    let ghost body = if seg@[0] == '+' {
        seg@.skip(1)
    } else {
        seg@
    };
    proof {
        assert(body =~= seg@.subrange(start as int, n as int));
        assert(seg@.subrange(start as int, start as int) =~= Seq::<char>::empty());
    }
    let mut val: u64 = 0;
    let mut i: usize = start;
    while i < n
        invariant
            n == seg@.len(),
            n > 0,
            start == (if seg@[0] == '+' {
                1int
            } else {
                0int
            }),
            start <= i <= n,
            body == (if seg@[0] == '+' {
                seg@.skip(1)
            } else {
                seg@
            }),
            body == seg@.subrange(start as int, n as int),
            forall|j: int| start <= j < i ==> spec_is_digit(#[trigger] seg@[j]),
            val <= 0xffff_ffffu64 * 10 + 9,
            ({
                let scanned = seg@.subrange(start as int, i as int);
                if spec_digits_value(scanned) <= u32::MAX {
                    val == spec_digits_value(scanned)
                } else {
                    val > u32::MAX
                }
            }),
        decreases n - i,
    {
        let ghost scanned = seg@.subrange(start as int, i as int);
        proof {
            assert(seg@.subrange(start as int, i as int + 1).drop_last() =~= scanned);
            assert(seg@.subrange(start as int, i as int + 1).last() == seg@[i as int]);
        }
        let c = seg.get_char(i);
        let u = c as u32;
        if u < 48 || u > 57 {
            proof {
                assert(!spec_is_digit(seg@[i as int]));
                assert(spec_parse_body(seg@) == body);
                assert(body[i as int - start as int] == seg@[i as int]);
                assert(!spec_is_digit(spec_parse_body(seg@)[i as int - start as int]));
            }
            return false;
        }
        let d: u64 = (u - 48) as u64;
        if val <= 0xffff_ffffu64 {
            val = val * 10 + d;
        } else {
            proof {
                let dv = spec_digits_value(scanned);
                assert(dv * 10 + spec_digit_value(seg@[i as int]) >= dv);
            }
        }
        i = i + 1;
    }
    proof {
        assert(spec_parse_body(seg@) == body);
        assert(seg@.subrange(start as int, n as int) == body);
        assert forall|j: int|
            0 <= j < spec_parse_body(seg@).len() implies spec_is_digit(
            #[trigger] spec_parse_body(seg@)[j],
        ) by {
            assert(spec_parse_body(seg@)[j] == seg@[j + start]);
        }
    }
    val <= 0xffff_ffffu64
}

/// Whether a manifest version is well formed: exactly three dotted
/// segments, each a `u32`.
pub fn is_valid_version(version: &str) -> (r: bool)
    ensures
        r == spec_valid_version(version@),
{
    let parts = split_dots(version);
    if parts.len() != 3 {
        return false;
    }
    parses_as_u32(parts[0].as_str()) && parses_as_u32(parts[1].as_str()) && parses_as_u32(
        parts[2].as_str(),
    )
}

/// Whether a manifest permission name is one the platform knows.
pub fn is_valid_permission(permission: &str) -> (r: bool)
    ensures
        r == spec_valid_permission(permission@),
{
    str_eq(permission, "jean.chat") || str_eq(permission, "jean.actions") || str_eq(
        permission,
        "tabs.read",
    ) || str_eq(permission, "tabs.write") || str_eq(permission, "proxy.read") || str_eq(
        permission,
        "proxy.write",
    ) || str_eq(permission, "files.read") || str_eq(permission, "files.write") || str_eq(
        permission,
        "network.request",
    ) || str_eq(permission, "storage.read") || str_eq(permission, "storage.write") || str_eq(
        permission,
        "ui.panel",
    ) || str_eq(permission, "ui.modal") || str_eq(permission, "notifications.show")
}

} // verus!
