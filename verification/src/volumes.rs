//! Removable volumes: which block devices count as removable media, the
//! identity and name each volume gets, and the rules for Windows, macOS and
//! mounted-folder volumes.

use crate::text::{
    chars_of, ends_with_chars, leading_word, leading_word_exec, opt_chars, parse_i64,
    parse_i64_chars, rfind, rfind_chars, slice_chars, starts_with, starts_with_chars, str_is,
    string_of, trim, trim_chars, trim_start, trim_start_chars,
};
use vstd::prelude::*;

verus! {

/// A yes/no column of `lsblk` (newer versions write a boolean, older ones
/// the text `"1"` or `"0"`).
pub enum FlagValue {
    Bool(bool),
    Text(String),
    Missing,
}

/// A size column of `lsblk`: a number, a text, or missing.
pub enum SizeValue {
    Int(i64),
    Text(String),
    Missing,
}

/// What a size column reads as.
pub enum SizeReading {
    Bytes(i64),
    /// A human-readable size: `number` (to read as a decimal) times `factor`.
    Scaled { number: String, factor: i64 },
    Unknown,
}

/// Abstract [`SizeReading`].
pub enum SizeView {
    Bytes(i64),
    Scaled(Seq<char>, i64),
    Unknown,
}

impl View for SizeReading {
    type V = SizeView;

    open spec fn view(&self) -> SizeView {
        match self {
            SizeReading::Bytes(n) => SizeView::Bytes(*n),
            SizeReading::Scaled { number, factor } => SizeView::Scaled(number@, *factor),
            SizeReading::Unknown => SizeView::Unknown,
        }
    }
}

/// A block device as `lsblk -J -b` lists it, with its partitions.
pub struct BlockDevice {
    pub name: Option<String>,
    pub label: Option<String>,
    pub uuid: Option<String>,
    pub mountpoint: Option<String>,
    pub tran: Option<String>,
    pub model: Option<String>,
    pub serial: Option<String>,
    pub hotplug: FlagValue,
    /// The SIZE column as text ("" when missing).
    pub size_text: String,
    pub fssize: SizeValue,
    pub fsavail: SizeValue,
    pub children: Vec<BlockDevice>,
}

/// A removable volume found in the device tree.
pub struct Volume {
    pub device_uid: String,
    pub name: String,
    pub mount_path: String,
    pub capacity: SizeReading,
    pub free: SizeReading,
    pub model: Option<String>,
}

/// Abstract [`Volume`].
pub struct VolumeView {
    pub device_uid: Seq<char>,
    pub name: Seq<char>,
    pub mount_path: Seq<char>,
    pub capacity: SizeView,
    pub free: SizeView,
    pub model: Option<Seq<char>>,
}

impl View for Volume {
    type V = VolumeView;

    open spec fn view(&self) -> VolumeView {
        VolumeView {
            device_uid: self.device_uid@,
            name: self.name@,
            mount_path: self.mount_path@,
            capacity: self.capacity@,
            free: self.free@,
            model: opt_chars(self.model),
        }
    }
}

/// What a size column reads as: a number as bytes; a text, trimmed, as a
/// whole number of bytes, or else as a number with a `G`, `M`, `T` or `K`
/// suffix (binary units); anything else as unknown.
pub open spec fn size_reading(v: SizeValue) -> SizeView {
    match v {
        SizeValue::Int(n) => SizeView::Bytes(n),
        SizeValue::Missing => SizeView::Unknown,
        SizeValue::Text(s) => {
            let t = trim(s@);
            if t.len() == 0 {
                SizeView::Unknown
            } else {
                match parse_i64(t) {
                    Some(n) => SizeView::Bytes(n as i64),
                    None => {
                        let head = t.drop_last();
                        if t.last() == 'G' {
                            SizeView::Scaled(head, 1073741824)
                        } else if t.last() == 'M' {
                            SizeView::Scaled(head, 1048576)
                        } else if t.last() == 'T' {
                            SizeView::Scaled(head, 1099511627776)
                        } else if t.last() == 'K' {
                            SizeView::Scaled(head, 1024)
                        } else {
                            SizeView::Unknown
                        }
                    },
                }
            }
        },
    }
}

/// What a size column reads as (see [`size_reading`]).
pub fn read_size(v: &SizeValue) -> (r: SizeReading)
    ensures
        r@ == size_reading(*v),
{
    match v {
        SizeValue::Int(n) => SizeReading::Bytes(*n),
        SizeValue::Missing => SizeReading::Unknown,
        SizeValue::Text(s) => {
            let cs = chars_of(s.as_str());
            let t = trim_chars(cs.as_slice());
            if t.len() == 0 {
                return SizeReading::Unknown;
            }
            match parse_i64_chars(t.as_slice()) {
                Some(n) => SizeReading::Bytes(n),
                None => {
                    let n = t.len();
                    let head = string_of(slice_chars(t.as_slice(), 0, n - 1).as_slice());
                    assert(head@ =~= t@.drop_last());
                    let last = t[n - 1];
                    if last == 'G' {
                        SizeReading::Scaled { number: head, factor: 1073741824 }
                    } else if last == 'M' {
                        SizeReading::Scaled { number: head, factor: 1048576 }
                    } else if last == 'T' {
                        SizeReading::Scaled { number: head, factor: 1099511627776 }
                    } else if last == 'K' {
                        SizeReading::Scaled { number: head, factor: 1024 }
                    } else {
                        SizeReading::Unknown
                    }
                },
            }
        },
    }
}

/// The device's own value, else the one it inherits.
pub open spec fn own_or(own: Option<String>, inherited: Option<Seq<char>>) -> Option<Seq<char>> {
    match own {
        Some(s) => Some(s@),
        None => inherited,
    }
}

/// The text of an optional column ("" when missing).
pub open spec fn text_or_empty(o: Option<String>) -> Seq<char> {
    match o {
        Some(s) => s@,
        None => Seq::empty(),
    }
}

/// Whether the hot-plug column says yes.
pub open spec fn hotplug_on(f: FlagValue) -> bool {
    match f {
        FlagValue::Bool(b) => b,
        FlagValue::Text(s) => s@ == "1"@,
        FlagValue::Missing => false,
    }
}

/// Removable media: a USB or SD-card transport, an `mmcblk` device, or a
/// desktop automount under `/run/media/` or `/media/`.
pub open spec fn is_removable(tran: Option<Seq<char>>, dev_name: Seq<char>, mountpoint: Option<Seq<char>>) -> bool {
    ||| tran == Some("usb"@)
    ||| tran == Some("mmc"@)
    ||| starts_with(dev_name, "mmcblk"@)
    ||| (mountpoint matches Some(m) && (starts_with(m, "/run/media/"@) || starts_with(m, "/media/"@)))
}

/// A volume's identity: its filesystem UUID, else its serial number, else
/// its label and size.
pub open spec fn volume_uid(uuid: Seq<char>, serial: Option<Seq<char>>, label: Seq<char>, size: Seq<char>) -> Seq<char> {
    if uuid.len() > 0 {
        "uuid:"@ + uuid
    } else if serial matches Some(s) && s.len() > 0 {
        "serial:"@ + serial.unwrap()
    } else {
        "label:"@ + label + ":"@ + size
    }
}

/// The text after the last `c` of `s` (all of `s` without one).
pub open spec fn after_last(s: Seq<char>, c: char) -> Seq<char> {
    match rfind(s, seq![c]) {
        Some(i) => s.subrange(i + 1, s.len() as int),
        None => s,
    }
}

/// A volume's name: its label, else its model, else the last part of its
/// mount path.
pub open spec fn volume_name(label: Seq<char>, model: Option<Seq<char>>, mount: Seq<char>) -> Seq<char> {
    if label.len() > 0 {
        label
    } else {
        match model {
            Some(m) => trim(m),
            None => after_last(mount, '/'),
        }
    }
}

/// The volume a device gives when it qualifies: hot-pluggable, removable,
/// with a non-empty mount point.
pub open spec fn own_volume(
    dev: BlockDevice,
    tran: Option<Seq<char>>,
    model: Option<Seq<char>>,
    serial: Option<Seq<char>>,
) -> Seq<VolumeView> {
    let mp = opt_chars(dev.mountpoint);
    match mp {
        Some(p) if hotplug_on(dev.hotplug) && is_removable(tran, text_or_empty(dev.name), mp)
            && p.len() > 0 => seq![
            VolumeView {
                device_uid: volume_uid(
                    text_or_empty(dev.uuid),
                    serial,
                    text_or_empty(dev.label),
                    dev.size_text@,
                ),
                name: volume_name(text_or_empty(dev.label), model, p),
                mount_path: p,
                capacity: size_reading(dev.fssize),
                free: size_reading(dev.fsavail),
                model: match model {
                    Some(m) => Some(trim(m)),
                    None => None,
                },
            },
        ],
        _ => Seq::empty(),
    }
}

/// The volumes of a device and its partitions, depth first: a device's own
/// volume (if any) before those of its partitions. Transport, model and
/// serial are inherited from the parent device when a partition has none.
pub open spec fn tree_volumes(
    dev: BlockDevice,
    tran: Option<Seq<char>>,
    model: Option<Seq<char>>,
    serial: Option<Seq<char>>,
) -> Seq<VolumeView>
    decreases dev, dev.children@.len() + 1,
{
    let t = own_or(dev.tran, tran);
    let m = own_or(dev.model, model);
    let s = own_or(dev.serial, serial);
    own_volume(dev, t, m, s) + child_volumes(dev, dev.children@.len() as int, t, m, s)
}

/// The volumes of the first `k` partitions of `dev`.
pub open spec fn child_volumes(
    dev: BlockDevice,
    k: int,
    tran: Option<Seq<char>>,
    model: Option<Seq<char>>,
    serial: Option<Seq<char>>,
) -> Seq<VolumeView>
    decreases dev, k,
{
    if k <= 0 || k > dev.children@.len() {
        Seq::empty()
    } else {
        proof {
            assert(decreases_to!(dev => dev.children));
            assert(decreases_to!(dev.children => dev.children@));
            assert(decreases_to!(dev.children@ => dev.children@[k - 1]));
        }
        child_volumes(dev, k - 1, tran, model, serial) + tree_volumes(
            dev.children@[k - 1],
            tran,
            model,
            serial,
        )
    }
}


/// The volumes of the first `n` top-level devices.
pub open spec fn forest_volumes(devs: Seq<BlockDevice>, n: int) -> Seq<VolumeView>
    decreases n,
{
    if n <= 0 || n > devs.len() {
        Seq::empty()
    } else {
        forest_volumes(devs, n - 1) + tree_volumes(devs[n - 1], None, None, None)
    }
}

fn clone_opt(o: &Option<String>) -> (r: Option<String>)
    ensures
        opt_chars(r) == opt_chars(*o),
{
    match o {
        Some(s) => Some(s.clone()),
        None => None,
    }
}

fn inherit(own: &Option<String>, inherited: &Option<String>) -> (r: Option<String>)
    ensures
        opt_chars(r) == own_or(*own, opt_chars(*inherited)),
{
    match own {
        Some(s) => Some(s.clone()),
        None => clone_opt(inherited),
    }
}

fn text_of(o: &Option<String>) -> (r: Vec<char>)
    ensures
        r@ == text_or_empty(*o),
{
    match o {
        Some(s) => chars_of(s.as_str()),
        None => Vec::new(),
    }
}

fn concat(a: &str, b: &[char]) -> (r: String)
    ensures
        r@ == a@ + b@,
{
    let mut r = a.to_string();
    let t = string_of(b);
    r.append(t.as_str());
    r
}

fn removable_exec(tran: &Option<String>, dev_name: &[char], mountpoint: &Option<String>) -> (r: bool)
    ensures
        r == is_removable(opt_chars(*tran), dev_name@, opt_chars(*mountpoint)),
{
    let by_tran = match tran {
        Some(t) => str_is(t.as_str(), "usb") || str_is(t.as_str(), "mmc"),
        None => false,
    };
    let mmc = chars_of("mmcblk");
    let by_name = starts_with_chars(dev_name, mmc.as_slice());
    let by_mount = match mountpoint {
        Some(m) => {
            let mc = chars_of(m.as_str());
            let a = chars_of("/run/media/");
            let b = chars_of("/media/");
            starts_with_chars(mc.as_slice(), a.as_slice()) || starts_with_chars(
                mc.as_slice(),
                b.as_slice(),
            )
        },
        None => false,
    };
    by_tran || by_name || by_mount
}

fn hotplug_exec(f: &FlagValue) -> (r: bool)
    ensures
        r == hotplug_on(*f),
{
    match f {
        FlagValue::Bool(b) => *b,
        FlagValue::Text(s) => str_is(s.as_str(), "1"),
        FlagValue::Missing => false,
    }
}

/// A volume's identity (see [`volume_uid`]).
pub fn volume_uid_exec(uuid: &[char], serial: &Option<String>, label: &[char], size: &str) -> (r: String)
    ensures
        r@ == volume_uid(uuid@, opt_chars(*serial), label@, size@),
{
    if uuid.len() > 0 {
        return concat("uuid:", uuid);
    }
    match serial {
        Some(s) => {
            if !s.as_str().is_empty() {
                let sc = chars_of(s.as_str());
                return concat("serial:", sc.as_slice());
            }
        },
        None => {},
    }
    let mut r = concat("label:", label);
    r.append(":");
    r.append(size);
    r
}

/// The text after the last `/` of a path (all of it without one).
fn after_last_slash(s: &[char]) -> (r: Vec<char>)
    ensures
        r@ == after_last(s@, '/'),
{
    let slash = vec!['/'];
    assert(slash@ =~= seq!['/']);
    let n = s.len();
    match rfind_chars(s, slash.as_slice()) {
        Some(i) => {
            assert(crate::text::occurs_at(s@, slash@, i as int));
            assert(slash@.len() == 1);
            assert(i + 1 <= n);
            slice_chars(s, i + 1, n)
        },
        None => {
            let r = slice_chars(s, 0, s.len());
            assert(r@ =~= s@);
            r
        },
    }
}

/// A volume's name (see [`volume_name`]).
pub fn volume_name_exec(label: &[char], model: &Option<String>, mount: &[char]) -> (r: String)
    ensures
        r@ == volume_name(label@, opt_chars(*model), mount@),
{
    if label.len() > 0 {
        return string_of(label);
    }
    match model {
        Some(m) => {
            let mc = chars_of(m.as_str());
            string_of(trim_chars(mc.as_slice()).as_slice())
        },
        None => {
            let r = after_last_slash(mount);
            string_of(r.as_slice())
        },
    }
}

/// Appends the volumes of a device and its partitions to `out` (see
/// [`tree_volumes`]).
pub fn collect_volumes(
    dev: &BlockDevice,
    tran: &Option<String>,
    model: &Option<String>,
    serial: &Option<String>,
    out: &mut Vec<Volume>,
)
    ensures
        final(out)@.map_values(|v: Volume| v@) == old(out)@.map_values(|v: Volume| v@)
            + tree_volumes(*dev, opt_chars(*tran), opt_chars(*model), opt_chars(*serial)),
    decreases dev,
{
    let ghost base = out@.map_values(|v: Volume| v@);
    let t = inherit(&dev.tran, tran);
    let m = inherit(&dev.model, model);
    let s = inherit(&dev.serial, serial);
    let name = text_of(&dev.name);
    let qualifies = match &dev.mountpoint {
        Some(p) => hotplug_exec(&dev.hotplug) && removable_exec(&t, name.as_slice(), &dev.mountpoint)
            && !p.as_str().is_empty(),
        None => false,
    };
    if qualifies {
        let p = match &dev.mountpoint {
            Some(p) => p.clone(),
            None => String::new(),
        };
        let uuid = text_of(&dev.uuid);
        let label = text_of(&dev.label);
        let pc = chars_of(p.as_str());
        let v = Volume {
            device_uid: volume_uid_exec(uuid.as_slice(), &s, label.as_slice(), dev.size_text.as_str()),
            name: volume_name_exec(label.as_slice(), &m, pc.as_slice()),
            mount_path: p,
            capacity: read_size(&dev.fssize),
            free: read_size(&dev.fsavail),
            model: match &m {
                Some(x) => {
                    let xc = chars_of(x.as_str());
                    Some(string_of(trim_chars(xc.as_slice()).as_slice()))
                },
                None => None,
            },
        };
        out.push(v);
    }
    let ghost own = own_volume(*dev, opt_chars(t), opt_chars(m), opt_chars(s));
    assert(out@.map_values(|v: Volume| v@) =~= base + own);
    let mut i: usize = 0;
    while i < dev.children.len()
        invariant
            i <= dev.children@.len(),
            out@.map_values(|v: Volume| v@) == base + own + child_volumes(
                *dev,
                i as int,
                opt_chars(t),
                opt_chars(m),
                opt_chars(s),
            ),
        decreases dev.children@.len() - i,
    {
        let ghost before = out@.map_values(|v: Volume| v@);
        proof {
            assert(decreases_to!(dev => dev.children));
            assert(decreases_to!(dev.children => dev.children@));
            assert(decreases_to!(dev.children@ => dev.children@[i as int]));
        }
        collect_volumes(&dev.children[i], &t, &m, &s, out);
        i = i + 1;
        assert(out@.map_values(|v: Volume| v@) =~= base + own + child_volumes(
            *dev,
            i as int,
            opt_chars(t),
            opt_chars(m),
            opt_chars(s),
        ));
    }
    assert(out@.map_values(|v: Volume| v@) =~= base + tree_volumes(
        *dev,
        opt_chars(*tran),
        opt_chars(*model),
        opt_chars(*serial),
    ));
}

/// The removable volumes of an `lsblk` device list, device by device (see
/// [`forest_volumes`]).
pub fn lsblk_volumes(devices: &Vec<BlockDevice>) -> (r: Vec<Volume>)
    ensures
        r@.map_values(|v: Volume| v@) == forest_volumes(devices@, devices@.len() as int),
{
    let mut out: Vec<Volume> = Vec::new();
    let mut i: usize = 0;
    assert(out@.map_values(|v: Volume| v@) =~= Seq::<VolumeView>::empty());
    while i < devices.len()
        invariant
            i <= devices@.len(),
            out@.map_values(|v: Volume| v@) == forest_volumes(devices@, i as int),
        decreases devices@.len() - i,
    {
        collect_volumes(&devices[i], &None, &None, &None, &mut out);
        i = i + 1;
    }
    out
}


/// A reported volume: mounted somewhere, and identified by its filesystem
/// UUID, its serial number or its label and size.
pub open spec fn is_reported_volume(v: VolumeView) -> bool {
    &&& v.mount_path.len() > 0
    &&& (starts_with(v.device_uid, "uuid:"@) || starts_with(v.device_uid, "serial:"@)
        || starts_with(v.device_uid, "label:"@))
}

/// All volumes of a list are reported volumes.
pub open spec fn all_reported(vs: Seq<VolumeView>) -> bool {
    forall|i: int| 0 <= i < vs.len() ==> is_reported_volume(#[trigger] vs[i])
}

proof fn lemma_all_reported_concat(a: Seq<VolumeView>, b: Seq<VolumeView>)
    requires
        all_reported(a),
        all_reported(b),
    ensures
        all_reported(a + b),
{
    assert forall|i: int| 0 <= i < (a + b).len() implies is_reported_volume(#[trigger] (a + b)[i]) by {
        if i < a.len() {
            assert((a + b)[i] == a[i]);
        } else {
            assert((a + b)[i] == b[i - a.len()]);
        }
    }
}

proof fn lemma_own_reported(dev: BlockDevice, t: Option<Seq<char>>, m: Option<Seq<char>>, s: Option<Seq<char>>)
    ensures
        all_reported(own_volume(dev, t, m, s)),
{
    reveal_strlit("uuid:");
    reveal_strlit("serial:");
    reveal_strlit("label:");
    let vs = own_volume(dev, t, m, s);
    if vs.len() > 0 {
        let v = vs[0];
        let uid = v.device_uid;
        let uuid = text_or_empty(dev.uuid);
        if uuid.len() > 0 {
            assert(uid.subrange(0, 5) =~= "uuid:"@);
        } else if s matches Some(x) && x.len() > 0 {
            assert(uid.subrange(0, 7) =~= "serial:"@);
        } else {
            assert(uid.subrange(0, 6) =~= "label:"@);
        }
    }
}

proof fn lemma_tree_reported(dev: BlockDevice, t: Option<Seq<char>>, m: Option<Seq<char>>, s: Option<Seq<char>>)
    ensures
        all_reported(tree_volumes(dev, t, m, s)),
    decreases dev, dev.children@.len() + 1,
{
    let t2 = own_or(dev.tran, t);
    let m2 = own_or(dev.model, m);
    let s2 = own_or(dev.serial, s);
    lemma_own_reported(dev, t2, m2, s2);
    lemma_child_reported(dev, dev.children@.len() as int, t2, m2, s2);
    lemma_all_reported_concat(own_volume(dev, t2, m2, s2), child_volumes(dev, dev.children@.len() as int, t2, m2, s2));
}

proof fn lemma_child_reported(
    dev: BlockDevice,
    k: int,
    t: Option<Seq<char>>,
    m: Option<Seq<char>>,
    s: Option<Seq<char>>,
)
    ensures
        all_reported(child_volumes(dev, k, t, m, s)),
    decreases dev, k,
{
    if k > 0 && k <= dev.children@.len() {
        assert(decreases_to!(dev => dev.children));
        assert(decreases_to!(dev.children => dev.children@));
        assert(decreases_to!(dev.children@ => dev.children@[k - 1]));
        lemma_child_reported(dev, k - 1, t, m, s);
        lemma_tree_reported(dev.children@[k - 1], t, m, s);
        lemma_all_reported_concat(child_volumes(dev, k - 1, t, m, s), tree_volumes(dev.children@[k - 1], t, m, s));
    }
}

/// Every volume an `lsblk` listing reports is mounted somewhere (a
/// non-empty mount path) and is identified by `uuid:`, `serial:` or
/// `label:` followed by its UUID, serial or label and size.
pub proof fn law_lsblk_volumes_are_mounted(devs: Seq<BlockDevice>, n: int)
    ensures
        all_reported(forest_volumes(devs, n)),
    decreases n,
{
    if n > 0 && n <= devs.len() {
        law_lsblk_volumes_are_mounted(devs, n - 1);
        lemma_tree_reported(devs[n - 1], None, None, None);
        lemma_all_reported_concat(forest_volumes(devs, n - 1), tree_volumes(devs[n - 1], None, None, None));
    }
}

/// A removable volume as Windows lists it.
pub struct WindowsVolume {
    pub drive_letter: Option<String>,
    pub label: Option<String>,
    pub size: Option<i64>,
    pub free: Option<i64>,
    pub unique_id: Option<String>,
}

/// The identity, name and mount path of a Windows volume; `None` without a
/// drive letter. The identity is the volume's unique id when it has one
/// (drive letters change between plugs), else letter, label and size.
pub open spec fn windows_device(v: WindowsVolume) -> Option<(Seq<char>, Seq<char>, Seq<char>)> {
    let letter = text_or_empty(v.drive_letter);
    let label = text_or_empty(v.label);
    let unique = trim(text_or_empty(v.unique_id));
    if letter.len() == 0 {
        None
    } else {
        Some(
            (
                if unique.len() > 0 {
                    "winvol:"@ + unique
                } else {
                    letter + ":"@ + label + ":"@ + crate::text::signed_decimal(
                        match v.size {
                            Some(n) => n as int,
                            None => 0,
                        },
                    )
                },
                if label.len() > 0 {
                    label
                } else {
                    "Removable Drive ("@ + letter + ":)"@
                },
                letter + ":\\"@,
            ),
        )
    }
}

/// The device record of a Windows volume (see [`windows_device`]).
pub fn windows_volume_device(v: &WindowsVolume) -> (r: Option<crate::models::DetectedDevice>)
    ensures
        match r {
            Some(d) => windows_device(*v) == Some((d.device_uid@, d.name@, d.mount_path@))
                && d.capacity_bytes == v.size && d.free_bytes == v.free && d.vendor is None
                && d.model is None,
            None => windows_device(*v) is None,
        },
{
    let letter = text_of(&v.drive_letter);
    if letter.len() == 0 {
        return None;
    }
    let label = text_of(&v.label);
    let uid_raw = text_of(&v.unique_id);
    let unique = trim_chars(uid_raw.as_slice());
    let lt = string_of(letter.as_slice());
    let device_uid = if unique.len() > 0 {
        concat("winvol:", unique.as_slice())
    } else {
        let mut u = string_of(letter.as_slice());
        u.append(":");
        let lb = string_of(label.as_slice());
        u.append(lb.as_str());
        u.append(":");
        let n = crate::text::i64_to_string(
            match v.size {
                Some(n) => n,
                None => 0,
            },
        );
        u.append(n.as_str());
        u
    };
    let name = if label.len() > 0 {
        string_of(label.as_slice())
    } else {
        let mut nm = concat("Removable Drive (", letter.as_slice());
        nm.append(":)");
        nm
    };
    let mut mount = string_of(letter.as_slice());
    mount.append(":\\");
    Some(
        crate::models::DetectedDevice {
            device_uid,
            name,
            mount_path: mount,
            capacity_bytes: v.size,
            free_bytes: v.free,
            vendor: None,
            model: None,
        },
    )
}

/// Volumes of the system disk, which are never offered for syncing.
pub open spec fn is_system_volume(name: Seq<char>) -> bool {
    name == "Macintosh HD"@ || name == "Macintosh HD - Data"@
}

/// Whether a macOS volume is a system volume.
pub fn system_volume(name: &str) -> (r: bool)
    ensures
        r == is_system_volume(name@),
{
    str_is(name, "Macintosh HD") || str_is(name, "Macintosh HD - Data")
}

/// Whether a macOS volume is offered: it is removable, or it says it is
/// not internal (`None` where its information lacks the entry).
pub fn macos_offered(removable: Option<bool>, internal: Option<bool>) -> (r: bool)
    ensures
        r == (removable == Some(true) || internal == Some(false)),
{
    removable == Some(true) || internal == Some(false)
}

/// A macOS volume's identity: its volume UUID when non-empty, else its name
/// and capacity.
pub fn macos_volume_uid(volume_uuid: &Option<String>, name: &str, capacity: Option<i64>) -> (r: String)
    ensures
        r@ == (match volume_uuid {
            Some(u) if u@.len() > 0 => "uuid:"@ + u@,
            _ => "vol:"@ + name@ + ":"@ + crate::text::signed_decimal(
                match capacity {
                    Some(c) => c as int,
                    None => 0,
                },
            ),
        }),
{
    match volume_uuid {
        Some(u) => {
            if !u.as_str().is_empty() {
                let uc = chars_of(u.as_str());
                return concat("uuid:", uc.as_slice());
            }
        },
        None => {},
    }
    let mut r = "vol:".to_string();
    r.append(name);
    r.append(":");
    let n = crate::text::i64_to_string(
        match capacity {
            Some(c) => c,
            None => 0,
        },
    );
    r.append(n.as_str());
    r
}

/// The identity of a volume found by scanning the mount folders: its
/// filesystem UUID when that could be read, else its folder name.
pub fn mounted_volume_uid(fs_uuid: &Option<String>, folder: &str) -> (r: String)
    ensures
        r@ == (match fs_uuid {
            Some(u) => "uuid:"@ + u@,
            None => "mount:"@ + folder@,
        }),
{
    match fs_uuid {
        Some(u) => {
            let uc = chars_of(u.as_str());
            concat("uuid:", uc.as_slice())
        },
        None => {
            let fc = chars_of(folder);
            concat("mount:", fc.as_slice())
        },
    }
}

/// Sizes a phone's mount reports below 1 GiB are the runtime folder's, not
/// the phone's: they are dropped.
pub fn sane_phone_size(v: Option<i64>) -> (r: Option<i64>)
    ensures
        r == (match v {
            Some(b) => if b >= 1073741824 {
                Some(b)
            } else {
                None
            },
            None => None,
        }),
{
    match v {
        Some(b) => if b >= 1073741824 {
            Some(b)
        } else {
            None
        },
        None => None,
    }
}

/// `s` with every occurrence of `pat` (left to right, not overlapping)
/// replaced by `with`.
pub open spec fn replace_text(s: Seq<char>, pat: Seq<char>, with: Seq<char>) -> Seq<char>
    decreases s.len(),
{
    if pat.len() == 0 {
        s
    } else {
        match crate::text::find(s, pat) {
            Some(i) => if 0 <= i && i + pat.len() <= s.len() {
                s.subrange(0, i) + with + replace_text(
                    s.subrange(i + pat.len(), s.len() as int),
                    pat,
                    with,
                )
            } else {
                s
            },
            None => s,
        }
    }
}

/// The device and mount point of a line of the mount table: its first two
/// white-space separated fields, with `\040` in the mount point read as a
/// space.
pub open spec fn mount_fields(line: Seq<char>) -> Option<(Seq<char>, Seq<char>)> {
    let t = trim_start(line);
    if t.len() == 0 {
        None
    } else {
        let dev = leading_word(t);
        let rest = trim_start(t.subrange(dev.len() as int, t.len() as int));
        Some((dev, replace_text(leading_word(rest), "\\040"@, " "@)))
    }
}

/// The device mounted at `mount` according to the first of `lines` that
/// names it.
pub open spec fn mounted_device(lines: Seq<Seq<char>>, mount: Seq<char>) -> Option<Seq<char>>
    decreases lines.len(),
{
    if lines.len() == 0 {
        None
    } else {
        match mount_fields(lines[0]) {
            Some((dev, mp)) if mp == mount => Some(dev),
            _ => mounted_device(lines.drop_first(), mount),
        }
    }
}

fn replace_text_exec(s: &[char], pat: &[char], with: &[char]) -> (r: Vec<char>)
    ensures
        r@ == replace_text(s@, pat@, with@),
    decreases s@.len(),
{
    if pat.len() == 0 {
        return slice_chars(s, 0, s.len());
    }
    let n = s.len();
    match crate::text::find_chars(s, pat) {
        Some(i) => {
            assert(crate::text::occurs_at(s@, pat@, i as int));
            let mut head = slice_chars(s, 0, i);
            let tail = slice_chars(s, i + pat.len(), n);
            let rest = replace_text_exec(tail.as_slice(), pat, with);
            let ghost h = head@;
            let mut k: usize = 0;
            while k < with.len()
                invariant
                    k <= with@.len(),
                    head@ == h + with@.take(k as int),
                decreases with@.len() - k,
            {
                head.push(with[k]);
                k = k + 1;
                assert(head@ =~= h + with@.take(k as int));
            }
            assert(with@.take(k as int) =~= with@);
            let ghost h2 = head@;
            let mut j: usize = 0;
            while j < rest.len()
                invariant
                    j <= rest@.len(),
                    head@ == h2 + rest@.take(j as int),
                decreases rest@.len() - j,
            {
                head.push(rest[j]);
                j = j + 1;
                assert(head@ =~= h2 + rest@.take(j as int));
            }
            assert(rest@.take(j as int) =~= rest@);
            head
        },
        None => {
            let r = slice_chars(s, 0, n);
            assert(r@ =~= s@);
            r
        },
    }
}

fn mount_fields_exec(line: &[char]) -> (r: Option<(Vec<char>, Vec<char>)>)
    ensures
        match r {
            Some((d, m)) => mount_fields(line@) == Some((d@, m@)),
            None => mount_fields(line@) is None,
        },
{
    let t = trim_start_chars(line);
    if t.len() == 0 {
        return None;
    }
    let dev = leading_word_exec(t.as_slice());
    proof {
        crate::text::lemma_leading_word_len(t@);
    }
    let rest = trim_start_chars(slice_chars(t.as_slice(), dev.len(), t.len()).as_slice());
    let word = leading_word_exec(rest.as_slice());
    let pat = chars_of("\\040");
    let sp = chars_of(" ");
    let mp = replace_text_exec(word.as_slice(), pat.as_slice(), sp.as_slice());
    Some((dev, mp))
}

/// The device mounted at `mount` according to a mount table (see
/// [`mounted_device`]).
pub fn mounted_device_of(table: &str, mount: &str) -> (r: Option<String>)
    ensures
        match r {
            Some(d) => mounted_device(crate::m3u::split_newlines(table@), mount@) == Some(d@),
            None => mounted_device(crate::m3u::split_newlines(table@), mount@) is None,
        },
{
    let cs = chars_of(table);
    let lines = crate::m3u::split_newline_chars(cs.as_slice());
    let ghost lv = lines@.map_values(|l: Vec<char>| l@);
    let mc = chars_of(mount);
    let mut i: usize = 0;
    assert(lv.skip(0) =~= lv);
    while i < lines.len()
        invariant
            i <= lines@.len(),
            lv == lines@.map_values(|l: Vec<char>| l@),
            lv == crate::m3u::split_newlines(table@),
            mc@ == mount@,
            mounted_device(lv, mount@) == mounted_device(lv.skip(i as int), mount@),
        decreases lines@.len() - i,
    {
        proof {
            assert(lv.skip(i as int)[0] == lines@[i as int]@);
            assert(lv.skip(i as int).drop_first() =~= lv.skip(i + 1));
        }
        match mount_fields_exec(lines[i].as_slice()) {
            Some((d, m)) => {
                if crate::text::chars_eq(m.as_slice(), mc.as_slice()) {
                    return Some(string_of(d.as_slice()));
                }
            },
            None => {},
        }
        i = i + 1;
    }
    None
}

} // verus!
