//! Descriptions of candidate block devices, as the front end shows them.
use crate::text::{
    colon_field, contains, contains_seq, decimal_of, field_after_colon, join2, lines_of, lower_of,
    lowercase, parse_u64, parsed_u64, push_decimal, split_lines, split_words, starts_with,
    starts_with_seq, str_eq, string_from_chars, trim, trimmed, words_of,
};
use vstd::arithmetic::div_mod::lemma_div_is_ordered_by_denominator;
use vstd::prelude::*;

verus! {

/// A block device that an image can be written to.
#[derive(Clone, Debug)]
pub struct DeviceInfo {
    pub path: String,
    pub name: String,
    pub size: String,
    pub device_type: String,
}

/// The label of a device: its name (when known), its size (when known) and
/// its path.
pub open spec fn display_of(path: Seq<char>, name: Seq<char>, size: Seq<char>) -> Seq<char> {
    let unnamed = name.len() == 0 || name == "Unknown Device"@;
    let unsized_ = size == "Unknown"@;
    if unnamed {
        if unsized_ {
            path
        } else {
            path + " ("@ + size + ")"@
        }
    } else if unsized_ {
        name + " - "@ + path
    } else {
        name + " ("@ + size + ") - "@ + path
    }
}

/// The name given to a device from its vendor and model; without either, a
/// name by its kind.
pub open spec fn device_name_of(
    vendor: Seq<char>,
    model: Seq<char>,
    name: Seq<char>,
    is_removable: bool,
) -> Seq<char> {
    let has_vendor = vendor.len() > 0 && vendor != "ATA"@;
    let has_model = model.len() > 0;
    if has_vendor && has_model {
        trimmed(vendor) + " "@ + trimmed(model)
    } else if has_vendor {
        trimmed(vendor)
    } else if has_model {
        trimmed(model)
    } else if is_removable {
        if starts_with_seq(name, "mmcblk"@) {
            "SD Card"@
        } else {
            "USB Drive"@
        }
    } else {
        "Unknown Device"@
    }
}

pub open spec fn size_label_of(size: Seq<char>) -> Seq<char> {
    if size.len() == 0 {
        "Unknown"@
    } else {
        size
    }
}

pub open spec fn macos_name_of(disk_name: Seq<char>, is_external: bool) -> Seq<char> {
    if contains_seq(disk_name, "disk"@) {
        if is_external {
            "External Drive"@
        } else {
            "USB Drive"@
        }
    } else {
        "Unknown Device"@
    }
}

pub open spec fn pow1024(k: nat) -> nat
    decreases k,
{
    if k == 0 {
        1
    } else {
        1024 * pow1024((k - 1) as nat)
    }
}

/// The unit a byte count is shown in: the largest of B, KB, MB, GB, TB that
/// it reaches, counting from `k`.
pub open spec fn unit_from(b: nat, k: nat) -> nat
    decreases 4 - k,
{
    if k < 4 && b >= pow1024(k + 1) {
        unit_from(b, k + 1)
    } else {
        k
    }
}

pub open spec fn unit_name(k: nat) -> Seq<char> {
    if k == 0 {
        seq!['B']
    } else if k == 1 {
        seq!['K', 'B']
    } else if k == 2 {
        seq!['M', 'B']
    } else if k == 3 {
        seq!['G', 'B']
    } else {
        seq!['T', 'B']
    }
}

/// `b / p` in tenths, rounded to the nearest tenth, ties to even.
pub open spec fn rounded_tenths(b: nat, p: nat) -> nat {
    let q = (10 * b) / p;
    let r = (10 * b) % p;
    if 2 * r > p || (2 * r == p && q % 2 == 1) {
        q + 1
    } else {
        q
    }
}

/// A byte count as text: whole bytes below 1 KB, else one decimal place in
/// the largest unit it reaches, up to TB.
pub open spec fn human_of(b: nat) -> Seq<char> {
    let k = unit_from(b, 0);
    if b == 0 {
        seq!['0', ' ', 'B']
    } else if k == 0 {
        decimal_of(b) + seq![' ', 'B']
    } else {
        let t = rounded_tenths(b, pow1024(k));
        decimal_of(t / 10) + seq!['.'] + decimal_of(t % 10) + seq![' '] + unit_name(k)
    }
}

proof fn lemma_pow1024_values()
    ensures
        pow1024(0) == 1,
        pow1024(1) == 1024,
        pow1024(2) == 1048576,
        pow1024(3) == 1073741824,
        pow1024(4) == 1099511627776,
{
    reveal_with_fuel(pow1024, 5);
}

impl DeviceInfo {
    /// The label shown for the device.
    pub fn display_name(&self) -> (r: String)
        ensures
            r@ == display_of(self.path@, self.name@, self.size@),
    {
        let unsized_ = str_eq(self.size.as_str(), "Unknown");
        if self.name.as_str().is_empty() || str_eq(self.name.as_str(), "Unknown Device") {
            if unsized_ {
                self.path.clone()
            } else {
                let a = join2(self.path.as_str(), " (");
                let b = join2(a.as_str(), self.size.as_str());
                join2(b.as_str(), ")")
            }
        } else if unsized_ {
            let a = join2(self.name.as_str(), " - ");
            join2(a.as_str(), self.path.as_str())
        } else {
            let a = join2(self.name.as_str(), " (");
            let b = join2(a.as_str(), self.size.as_str());
            let c = join2(b.as_str(), ") - ");
            join2(c.as_str(), self.path.as_str())
        }
    }
}

/// The name of a device from what `lsblk` reports of it.
pub fn build_device_name(vendor: &str, model: &str, name: &str, is_removable: bool) -> (r: String)
    ensures
        r@ == device_name_of(vendor@, model@, name@, is_removable),
{
    let has_vendor = !vendor.is_empty() && !str_eq(vendor, "ATA");
    let has_model = !model.is_empty();
    if has_vendor && has_model {
        let a = join2(trim(vendor), " ");
        join2(a.as_str(), trim(model))
    } else if has_vendor {
        trim(vendor).to_owned()
    } else if has_model {
        trim(model).to_owned()
    } else if is_removable {
        if starts_with(name, "mmcblk") {
            "SD Card".to_owned()
        } else {
            "USB Drive".to_owned()
        }
    } else {
        "Unknown Device".to_owned()
    }
}

/// The size text shown for a device; "Unknown" when there is none.
pub fn format_size(size: &str) -> (r: String)
    ensures
        r@ == size_label_of(size@),
{
    if size.is_empty() {
        "Unknown".to_owned()
    } else {
        size.to_owned()
    }
}

/// The name of an external disk on macOS when it reports no media name.
pub fn build_macos_device_name(disk_name: &str, is_external: bool) -> (r: String)
    ensures
        r@ == macos_name_of(disk_name@, is_external),
{
    if contains(disk_name, "disk") {
        if is_external {
            "External Drive".to_owned()
        } else {
            "USB Drive".to_owned()
        }
    } else {
        "Unknown Device".to_owned()
    }
}

fn push_unit(out: &mut Vec<char>, k: u64)
    ensures
        final(out)@ == old(out)@ + unit_name(k as nat),
{
    if k == 1 {
        out.push('K');
    } else if k == 2 {
        out.push('M');
    } else if k == 3 {
        out.push('G');
    } else if k >= 4 {
        out.push('T');
    }
    if k > 0 {
        out.push('B');
        assert(final(out)@ =~= old(out)@ + unit_name(k as nat));
    } else {
        out.push('B');
        assert(final(out)@ =~= old(out)@ + unit_name(k as nat));
    }
}

/// A byte count as text, as `human_of` gives it.
pub fn format_bytes_to_human_readable(bytes: u64) -> (r: String)
    ensures
        r@ == human_of(bytes as nat),
{
    let mut out: Vec<char> = Vec::new();
    if bytes == 0 {
        out.push('0');
        out.push(' ');
        out.push('B');
        assert(out@ =~= seq!['0', ' ', 'B']);
        return string_from_chars(&out);
    }
    let mut k: u64 = 0;
    let mut p: u64 = 1;
    while k < 4 && bytes >= p * 1024
        invariant
            k <= 4,
            p as nat == pow1024(k as nat),
            p <= 1099511627776,
            unit_from(bytes as nat, 0) == unit_from(bytes as nat, k as nat),
            k > 0 ==> p >= 1024,
        decreases 4 - k,
    {
        assert(pow1024((k + 1) as nat) == 1024 * pow1024(k as nat));
        proof {
            lemma_pow1024_values();
        }
        p = p * 1024;
        k = k + 1;
    }
    proof {
        lemma_pow1024_values();
    }
    assert(pow1024((k + 1) as nat) == 1024 * pow1024(k as nat));
    assert(unit_from(bytes as nat, k as nat) == k);
    if k == 0 {
        push_decimal(&mut out, bytes);
        out.push(' ');
        out.push('B');
        assert(out@ =~= human_of(bytes as nat));
        return string_from_chars(&out);
    }
    let n: u128 = bytes as u128 * 10;
    let q: u128 = n / (p as u128);
    let rem: u128 = n % (p as u128);
    proof {
        lemma_div_is_ordered_by_denominator(n as int, 1024, p as int);
    }
    let t: u128 = if 2 * rem > p as u128 || (2 * rem == p as u128 && q % 2 == 1) {
        q + 1
    } else {
        q
    };
    assert(t as nat == rounded_tenths(bytes as nat, p as nat));
    let whole = (t / 10) as u64;
    let tenth = (t % 10) as u64;
    push_decimal(&mut out, whole);
    out.push('.');
    push_decimal(&mut out, tenth);
    out.push(' ');
    push_unit(&mut out, k);
    assert(out@ =~= human_of(bytes as nat));
    string_from_chars(&out)
}

/// Whether `lsblk` marks a device removable or hot-pluggable, or its sysfs
/// `removable` file (read as `sys_removable`, empty when unreadable) says `1`.
pub open spec fn removable_of(rm: Seq<char>, hotplug: Seq<char>, sys_removable: Seq<char>) -> bool {
    rm == "1"@ || hotplug == "1"@ || trimmed(sys_removable) == "1"@
}

/// Whether a device that `lsblk` lists is offered as a target.
pub open spec fn lsblk_included(
    name: Seq<char>,
    device_type: Seq<char>,
    mountpoint: Seq<char>,
    is_removable: bool,
) -> bool {
    device_type == "disk"@ && (is_removable || mountpoint.len() == 0 || starts_with_seq(
        name,
        "sd"@,
    ) || starts_with_seq(name, "mmcblk"@))
}

pub fn removable_flag(rm: &str, hotplug: &str, sys_removable: &str) -> (r: bool)
    ensures
        r == removable_of(rm@, hotplug@, sys_removable@),
{
    str_eq(rm, "1") || str_eq(hotplug, "1") || str_eq(trim(sys_removable), "1")
}

/// The device described by the fields of one `lsblk` entry, or `None` when
/// it is not a disk or not a likely target (mounted, not removable, and
/// named neither `sd*` nor `mmcblk*`).
pub fn device_from_lsblk(
    name: &str,
    size: &str,
    device_type: &str,
    mountpoint: &str,
    model: &str,
    vendor: &str,
    is_removable: bool,
) -> (r: Option<DeviceInfo>)
    ensures
        r is Some <==> lsblk_included(name@, device_type@, mountpoint@, is_removable),
        r matches Some(d) ==> {
            &&& d.path@ == "/dev/"@ + name@
            &&& d.name@ == device_name_of(vendor@, model@, name@, is_removable)
            &&& d.size@ == size_label_of(size@)
            &&& d.device_type@ == if is_removable {
                "Removable"@
            } else {
                "Disk"@
            }
        },
{
    if !str_eq(device_type, "disk") {
        return None;
    }
    let wanted = is_removable || mountpoint.is_empty() || starts_with(name, "sd") || starts_with(
        name,
        "mmcblk",
    );
    if !wanted {
        return None;
    }
    let device_type = if is_removable {
        "Removable".to_owned()
    } else {
        "Disk".to_owned()
    };
    Some(
        DeviceInfo {
            path: join2("/dev/", name),
            name: build_device_name(vendor, model, name, is_removable),
            size: format_size(size),
            device_type,
        },
    )
}

/// Whether a `/dev` entry is taken as a target when `lsblk` is unavailable:
/// `sd` and one more letter (`byte_len` is its length in bytes), or `mmcblk*`.
pub open spec fn fallback_included(name: Seq<char>, byte_len: nat) -> bool {
    (starts_with_seq(name, "sd"@) && byte_len == 3) || starts_with_seq(name, "mmcblk"@)
}

/// The device for a `/dev` entry when `lsblk` is unavailable, with the size
/// text already worked out, or `None` when the entry is not a target.
pub fn fallback_device(name: &str, size: String) -> (r: Option<DeviceInfo>)
    ensures
        r is Some <==> fallback_included(name@, name.len() as nat),
        r matches Some(d) ==> {
            &&& d.path@ == "/dev/"@ + name@
            &&& d.name@ == if starts_with_seq(name@, "mmcblk"@) {
                "SD Card"@
            } else {
                "USB Drive"@
            }
            &&& d.size == size
            &&& d.device_type@ == "Removable"@
        },
{
    let mmc = starts_with(name, "mmcblk");
    if !((starts_with(name, "sd") && name.len() == 3) || mmc) {
        return None;
    }
    let device_name = if mmc {
        "SD Card".to_owned()
    } else {
        "USB Drive".to_owned()
    };
    Some(
        DeviceInfo {
            path: join2("/dev/", name),
            name: device_name,
            size,
            device_type: "Removable".to_owned(),
        },
    )
}

/// The size text for a device of `sectors` 512-byte sectors: "Unknown" when
/// the count is unknown or the byte count does not fit in 64 bits.
pub open spec fn sectors_label_of(sectors: Option<u64>) -> Seq<char> {
    match sectors {
        Some(n) => if n * 512 <= u64::MAX {
            human_of((n * 512) as nat)
        } else {
            "Unknown"@
        },
        None => "Unknown"@,
    }
}

/// The size text for a device of `sectors` 512-byte sectors.
pub fn size_label_from_sectors(sectors: Option<u64>) -> (r: String)
    ensures
        r@ == sectors_label_of(sectors),
{
    match sectors {
        Some(n) => {
            if n <= u64::MAX / 512 {
                format_bytes_to_human_readable(n * 512)
            } else {
                "Unknown".to_owned()
            }
        },
        None => "Unknown".to_owned(),
    }
}

/// The size text for a device whose sysfs `size` file holds `sectors_text`
/// (a count of 512-byte sectors, as decimal text).
pub fn device_size_from_sectors(sectors_text: &str) -> (r: String)
    ensures
        r@ == sectors_label_of(parsed_u64(trimmed(sectors_text@))),
{
    size_label_from_sectors(parse_u64(trim(sectors_text)))
}

/// What a `diskutil info` report has told so far: the media name, the size
/// text, whether the media is removable, and whether it is attached
/// externally (USB, FireWire or Thunderbolt).
pub open spec fn report_start() -> (Seq<char>, Seq<char>, bool, bool) {
    (Seq::empty(), "Unknown"@, false, false)
}

pub open spec fn external_link(link: Seq<char>) -> bool {
    contains_seq(link, "usb"@) || contains_seq(link, "firewire"@) || contains_seq(
        link,
        "thunderbolt"@,
    )
}

/// The state after one line of the report; a later line of the same kind
/// overrides an earlier one.
pub open spec fn report_step(st: (Seq<char>, Seq<char>, bool, bool), raw: Seq<char>) -> (
    Seq<char>,
    Seq<char>,
    bool,
    bool,
) {
    let line = trimmed(raw);
    let value = trimmed(colon_field(line));
    if starts_with_seq(line, "Device / Media Name:"@) {
        (value, st.1, st.2, st.3)
    } else if starts_with_seq(line, "Disk Size:"@) {
        let w = words_of(value);
        if w.len() >= 2 {
            (st.0, w[0] + " "@ + w[1], st.2, st.3)
        } else {
            st
        }
    } else if starts_with_seq(line, "Removable Media:"@) {
        (st.0, st.1, contains_seq(line, "Yes"@), st.3)
    } else if starts_with_seq(line, "Protocol:"@) || starts_with_seq(
        line,
        "Physical Interconnect:"@,
    ) {
        (st.0, st.1, st.2, external_link(lower_of(value)))
    } else {
        st
    }
}

pub open spec fn report_scan(lines: Seq<Seq<char>>) -> (Seq<char>, Seq<char>, bool, bool)
    decreases lines.len(),
{
    if lines.len() == 0 {
        report_start()
    } else {
        report_step(report_scan(lines.drop_last()), lines.last())
    }
}

/// The external or removable disk that a `diskutil info` report describes,
/// or `None` when the disk is neither.
pub fn macos_device_from_info(disk_name: &str, info: &str) -> (r: Option<DeviceInfo>)
    ensures
        ({
            let st = report_scan(lines_of(info@));
            &&& r is Some <==> (st.2 || st.3)
            &&& r matches Some(d) ==> {
                &&& d.path@ == disk_name@
                &&& d.name@ == if st.0.len() > 0 && st.0 != "Unknown Device"@ {
                    st.0
                } else {
                    macos_name_of(disk_name@, st.3)
                }
                &&& d.size@ == st.1
                &&& d.device_type@ == if st.2 {
                    "Removable"@
                } else {
                    "External"@
                }
            }
        }),
{
    let lines = split_lines(info);
    let ghost ls = lines_of(info@);
    let mut media_name = String::new();
    let mut size = "Unknown".to_owned();
    let mut is_removable = false;
    let mut is_external = false;
    let mut i: usize = 0;
    assert(ls.take(0) =~= Seq::<Seq<char>>::empty());
    while i < lines.len()
        invariant
            i <= lines@.len(),
            lines@.len() == ls.len(),
            forall|k: int| 0 <= k < lines@.len() ==> lines@[k]@ == ls[k],
            (media_name@, size@, is_removable, is_external) == report_scan(ls.take(i as int)),
        decreases lines@.len() - i,
    {
        assert(ls.take(i + 1).drop_last() =~= ls.take(i as int));
        let line = trim(lines[i].as_str());
        if starts_with(line, "Device / Media Name:") {
            media_name = trim(field_after_colon(line)).to_owned();
        } else if starts_with(line, "Disk Size:") {
            let parts = split_words(trim(field_after_colon(line)));
            if parts.len() >= 2 {
                let a = join2(parts[0].as_str(), " ");
                size = join2(a.as_str(), parts[1].as_str());
            }
        } else if starts_with(line, "Removable Media:") {
            is_removable = contains(line, "Yes");
        } else if starts_with(line, "Protocol:") || starts_with(line, "Physical Interconnect:") {
            let link = lowercase(trim(field_after_colon(line)));
            is_external = contains(link.as_str(), "usb") || contains(link.as_str(), "firewire")
                || contains(link.as_str(), "thunderbolt");
        }
        i = i + 1;
    }
    assert(ls.take(lines@.len() as int) =~= ls);
    if !is_removable && !is_external {
        return None;
    }
    let name = if !media_name.as_str().is_empty() && !str_eq(media_name.as_str(), "Unknown Device") {
        media_name
    } else {
        build_macos_device_name(disk_name, is_external)
    };
    let device_type = if is_removable {
        "Removable".to_owned()
    } else {
        "External".to_owned()
    };
    Some(DeviceInfo { path: disk_name.to_owned(), name, size, device_type })
}

/// Whether a line of `diskutil list` names an external or GPT disk, and that
/// line's last word when it is a `/dev/disk` path.
pub open spec fn listed_disk(line: Seq<char>) -> Option<Seq<char>> {
    let w = words_of(line);
    if contains_seq(line, "/dev/disk"@) && (contains_seq(line, "external"@) || contains_seq(
        line,
        "GUID_partition_scheme"@,
    )) && w.len() > 0 && starts_with_seq(w.last(), "/dev/disk"@) {
        Some(w.last())
    } else {
        None
    }
}

/// The disks that the lines of a `diskutil list` report name, in order.
pub open spec fn listed_disks(lines: Seq<Seq<char>>) -> Seq<Seq<char>>
    decreases lines.len(),
{
    if lines.len() == 0 {
        Seq::empty()
    } else {
        let prev = listed_disks(lines.drop_last());
        match listed_disk(lines.last()) {
            Some(d) => prev.push(d),
            None => prev,
        }
    }
}

/// The candidate disks in a `diskutil list` report: the `/dev/disk` path
/// that ends each line describing an external or GPT disk.
pub fn macos_disks_from_list(list: &str) -> (r: Vec<String>)
    ensures
        r@.len() == listed_disks(lines_of(list@)).len(),
        forall|k: int| 0 <= k < r@.len() ==> r@[k]@ == listed_disks(lines_of(list@))[k],
{
    let lines = split_lines(list);
    let ghost ls = lines_of(list@);
    let mut out: Vec<String> = Vec::new();
    let mut i: usize = 0;
    assert(ls.take(0) =~= Seq::<Seq<char>>::empty());
    while i < lines.len()
        invariant
            i <= lines@.len(),
            lines@.len() == ls.len(),
            forall|k: int| 0 <= k < lines@.len() ==> lines@[k]@ == ls[k],
            out@.len() == listed_disks(ls.take(i as int)).len(),
            forall|k: int| 0 <= k < out@.len() ==> out@[k]@ == listed_disks(ls.take(i as int))[k],
        decreases lines@.len() - i,
    {
        assert(ls.take(i + 1).drop_last() =~= ls.take(i as int));
        let line = lines[i].as_str();
        if contains(line, "/dev/disk") && (contains(line, "external") || contains(
            line,
            "GUID_partition_scheme",
        )) {
            let words = split_words(line);
            if words.len() > 0 {
                let last = words[words.len() - 1].as_str();
                if starts_with(last, "/dev/disk") {
                    out.push(last.to_owned());
                }
            }
        }
        i = i + 1;
    }
    assert(ls.take(lines@.len() as int) =~= ls);
    out
}

} // verus!
