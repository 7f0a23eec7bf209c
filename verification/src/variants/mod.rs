//! The Pironman 5 variants and how the running one is chosen.
use vstd::prelude::*;
use crate::json::{JsonEntry, JsonValue};
use crate::text;

pub mod max;
pub mod mini;

pub use max::Pironman5Max;
pub use mini::Pironman5Mini;

verus! {

/// What a Pironman 5 variant provides.
pub trait Variant {
    fn name(&self) -> &'static str;

    fn id(&self) -> &'static str;

    fn product_version(&self) -> &'static str;

    fn peripherals(&self) -> Vec<String>;

    fn system_default_config(&self) -> JsonValue;

    fn dt_overlays(&self) -> Vec<String>;
}

/// One object member.
pub fn entry(key: &str, value: JsonValue) -> (r: JsonEntry)
    ensures
        r.key@ == key@,
        r.value == value,
{
    JsonEntry { key: String::from_str(key), value }
}

} // verus!

verus! {

/// The three variants of the case.
#[derive(Debug, Clone, Copy, PartialEq, Eq)]
pub enum VariantKind {
    Base,
    Mini,
    Max,
}

/// Which variant a product id and version denote.
pub open spec fn variant_for(variant_id: Seq<char>, version: Seq<char>) -> VariantKind {
    if variant_id == "0306"@ {
        if version == "10"@ {
            VariantKind::Base
        } else {
            VariantKind::Max
        }
    } else if variant_id == "0308"@ {
        VariantKind::Mini
    } else {
        VariantKind::Base
    }
}

/// The variant for a product id and version: 0306 version 10 is the base
/// case, other versions of 0306 the Max, 0308 the Mini, anything else the base.
pub fn get_variant(variant_id: &str, version: &str) -> (r: VariantKind)
    ensures
        r == variant_for(variant_id@, version@),
{
    if text::str_eq(variant_id, "0306") {
        if text::str_eq(version, "10") {
            VariantKind::Base
        } else {
            VariantKind::Max
        }
    } else if text::str_eq(variant_id, "0308") {
        VariantKind::Mini
    } else {
        VariantKind::Base
    }
}

/// The variant a short name forces, if it names one.
pub open spec fn forced_variant(name: Seq<char>) -> Option<VariantKind> {
    if name == "base"@ {
        Some(VariantKind::Base)
    } else if name == "mini"@ {
        Some(VariantKind::Mini)
    } else if name == "max"@ {
        Some(VariantKind::Max)
    } else {
        None
    }
}

/// The variant forced by the contents of the variant file (`None` when the
/// file could not be read or names no variant).
pub fn get_force_variant(file_contents: Option<&str>) -> (r: Option<VariantKind>)
    ensures
        r == match file_contents {
            Some(c) => forced_variant(text::trimmed(c@)),
            None => None,
        },
{
    match file_contents {
        Some(c) => {
            let short_name = text::trim(c);
            if text::str_eq(short_name, "base") {
                Some(VariantKind::Base)
            } else if text::str_eq(short_name, "mini") {
                Some(VariantKind::Mini)
            } else if text::str_eq(short_name, "max") {
                Some(VariantKind::Max)
            } else {
                None
            }
        },
        None => None,
    }
}

/// A part number splits at its `V` when it holds exactly one.
pub open spec fn split_part(s: Seq<char>) -> Option<(Seq<char>, Seq<char>)> {
    if exists|i: int| 0 <= i < s.len() && s[i] == 'V' && (forall|j: int| 0 <= j < s.len() && j != i ==> s[j] != 'V') {
        let i = choose|i: int| 0 <= i < s.len() && s[i] == 'V' && (forall|j: int| 0 <= j < s.len() && j != i ==> s[j] != 'V');
        Some((s.take(i), s.skip(i + 1)))
    } else {
        None
    }
}

/// Splits a part number such as `0306V10` into id and version: the pieces
/// around its `V` when it holds exactly one.
pub fn split_part_number(part_number: &str) -> (r: Option<(String, String)>)
    ensures
        match r {
            Some((a, b)) => split_part(part_number@) == Some((a@, b@)),
            None => split_part(part_number@) is None,
        },
{
    let n = part_number.unicode_len();
    let mut i: usize = 0;
    while i < n && part_number.get_char(i) != 'V'
        invariant
            i <= n,
            n == part_number@.len(),
            forall|j: int| 0 <= j < i ==> part_number@[j] != 'V',
        decreases n - i,
    {
        i = i + 1;
    }
    if i == n {
        assert(split_part(part_number@) is None);
        return None;
    }
    let mut k: usize = i + 1;
    while k < n
        invariant
            i < k <= n,
            n == part_number@.len(),
            part_number@[i as int] == 'V',
            forall|j: int| 0 <= j < i ==> part_number@[j] != 'V',
            forall|j: int| i < j < k ==> part_number@[j] != 'V',
        decreases n - k,
    {
        if part_number.get_char(k) == 'V' {
            assert(split_part(part_number@) is None) by {
                if exists|p: int| 0 <= p < n && part_number@[p] == 'V' && (forall|j: int| 0 <= j < n && j != p ==> part_number@[j] != 'V') {
                    let p = choose|p: int| 0 <= p < n && part_number@[p] == 'V' && (forall|j: int| 0 <= j < n && j != p ==> part_number@[j] != 'V');
                    if p == i {
                        assert(part_number@[k as int] != 'V');
                    } else {
                        assert(part_number@[i as int] != 'V');
                    }
                }
            }
            return None;
        }
        k = k + 1;
    }
    let a = String::from_str(part_number.substring_char(0, i));
    let b = String::from_str(part_number.substring_char(i + 1, n));
    proof {
        let s = part_number@;
        assert(s[i as int] == 'V' && (forall|j: int| 0 <= j < s.len() && j != i ==> s[j] != 'V'));
        let p = choose|p: int| 0 <= p < s.len() && s[p] == 'V' && (forall|j: int| 0 <= j < s.len() && j != p ==> s[j] != 'V');
        assert(p == i) by {
            if p != i {
                assert(s[i as int] != 'V');
            }
        }
        assert(a@ =~= s.take(i as int));
        assert(b@ =~= s.skip(i + 1));
    }
    Some((a, b))
}

/// The product id and version: from the environment's part number when it
/// splits, else from the HAT's part number when it splits, else 0306 / 10.
pub open spec fn id_and_version(env_part: Option<Seq<char>>, hat_part: Option<Seq<char>>) -> (Seq<char>, Seq<char>) {
    match (env_part, hat_part) {
        (Some(e), _) if split_part(e) is Some => split_part(e)->0,
        (_, Some(h)) if split_part(h) is Some => split_part(h)->0,
        _ => ("0306"@, "10"@),
    }
}

/// The product id and version, given the part number in the environment and
/// the one read from the HAT, when there are such.
pub fn get_variant_id_and_version(env_part: Option<&str>, hat_part: Option<&str>) -> (r: (String, String))
    ensures
        (r.0@, r.1@) == id_and_version(
            match env_part { Some(e) => Some(e@), None => None },
            match hat_part { Some(h) => Some(h@), None => None },
        ),
{
    if let Some(e) = env_part {
        if let Some(parts) = split_part_number(e) {
            return parts;
        }
    }
    if let Some(h) = hat_part {
        if let Some(parts) = split_part_number(h) {
            return parts;
        }
    }
    (String::from_str("0306"), String::from_str("10"))
}

/// The active variant: the forced one if the variant file names one, else the
/// one that the product id and version denote.
pub fn get_active_variant(force_file: Option<&str>, env_part: Option<&str>, hat_part: Option<&str>) -> (r: VariantKind)
    ensures
        r == match get_force_variant_spec(force_file) {
            Some(v) => v,
            None => {
                let iv = id_and_version(
                    match env_part { Some(e) => Some(e@), None => None },
                    match hat_part { Some(h) => Some(h@), None => None },
                );
                variant_for(iv.0, iv.1)
            },
        },
{
    if let Some(v) = get_force_variant(force_file) {
        return v;
    }
    let (id, version) = get_variant_id_and_version(env_part, hat_part);
    get_variant(id.as_str(), version.as_str())
}

/// The variant that the variant file forces, if any.
pub open spec fn get_force_variant_spec(file_contents: Option<&str>) -> Option<VariantKind> {
    match file_contents {
        Some(c) => forced_variant(text::trimmed(c@)),
        None => None,
    }
}

/// The device-tree directory: the first of `/proc/device-tree` and
/// `/device-tree` that exists.
pub fn get_device_tree_path(proc_exists: bool, root_exists: bool) -> (r: Option<String>)
    ensures
        proc_exists ==> (r matches Some(p) && p@ == "/proc/device-tree"@),
        !proc_exists && root_exists ==> (r matches Some(p) && p@ == "/device-tree"@),
        !proc_exists && !root_exists ==> r is None,
{
    if proc_exists {
        Some(String::from_str("/proc/device-tree"))
    } else if root_exists {
        Some(String::from_str("/device-tree"))
    } else {
        None
    }
}

/// The number a device-tree file holds: its text without trailing NUL
/// characters, read as hexadecimal.
pub open spec fn device_tree_value(content: Seq<char>) -> Option<u32> {
    let t = content.take(content.len() - text::trailing_count(content, '\0'));
    match text::radix16(t) {
        Some(n) => if n <= u32::MAX { Some(n as u32) } else { None },
        None => None,
    }
}

/// Reads the number in a device-tree file's contents.
pub fn read_device_tree_file(content: Option<&str>) -> (r: Option<u32>)
    ensures
        r == match content {
            Some(c) => device_tree_value(c@),
            None => None,
        },
{
    match content {
        Some(c) => {
            let t = text::trim_end_char(c, '\0');
            text::u32_from_hex(t)
        },
        None => None,
    }
}

/// Whether a device-tree entry is a HAT directory.
pub fn is_hat_entry(name: &str) -> (r: bool)
    ensures
        r == ("hat"@.len() <= name@.len() && name@.take(3) == "hat"@),
{
    proof {
        reveal_strlit("hat");
    }
    text::starts_with(name, "hat")
}

/// The part number printed from a product id and version: the id in at least
/// four decimal digits, `V`, the version in at least two.
pub open spec fn part_number(product_id: u32, product_ver: u32) -> Seq<char> {
    text::zero_padded(product_id as nat, 4) + seq!['V'] + text::zero_padded(product_ver as nat, 2)
}

pub fn format_part_number(product_id: u32, product_ver: u32) -> (r: String)
    ensures
        r@ == part_number(product_id, product_ver),
{
    let mut s = text::zero_padded_string(product_id as u64, 4);
    s.append("V");
    let v = text::zero_padded_string(product_ver as u64, 2);
    s.append(v.as_str());
    proof {
        reveal_strlit("V");
    }
    assert(s@ =~= part_number(product_id, product_ver));
    s
}

/// The part number of a HAT, from the contents of its `product_id` and
/// `product_ver` files, when both hold a number.
pub fn get_part_number(product_id_file: Option<&str>, product_ver_file: Option<&str>) -> (r: Option<String>)
    ensures
        match (read_device_tree_spec(product_id_file), read_device_tree_spec(product_ver_file)) {
            (Some(i), Some(v)) => (r matches Some(p) && p@ == part_number(i, v)),
            _ => r is None,
        },
{
    let id = read_device_tree_file(product_id_file);
    let ver = read_device_tree_file(product_ver_file);
    match (id, ver) {
        (Some(i), Some(v)) => Some(format_part_number(i, v)),
        _ => None,
    }
}

pub open spec fn read_device_tree_spec(content: Option<&str>) -> Option<u32> {
    match content {
        Some(c) => device_tree_value(c@),
        None => None,
    }
}

/// The part numbers: 0306 is the Max except at version 10, which is the
/// base case; 0308 is the Mini at every version; any other product is the
/// base case.
pub proof fn law_part_numbers(variant_id: Seq<char>, version: Seq<char>)
    ensures
        (variant_for(variant_id, version) == VariantKind::Max)
            <==> (variant_id == seq!['0', '3', '0', '6'] && version != seq!['1', '0']),
        (variant_for(variant_id, version) == VariantKind::Mini) <==> variant_id == seq!['0', '3', '0', '8'],
{
    reveal_strlit("0306");
    reveal_strlit("0308");
    reveal_strlit("10");
    assert(seq!['0', '3', '0', '6'] =~= "0306"@);
    assert(seq!['0', '3', '0', '8'] =~= "0308"@);
    assert(seq!['1', '0'] =~= "10"@);
}

} // verus!
