//! What the receiver announces of itself.

use vstd::prelude::*;
use vstd::string::*;

use crate::chromecast::discovery::is_own;
use crate::chromecast::self_filter::SelfFilter;
use crate::device::{DeviceCapabilities, IpAddress, ResolvedService};
use crate::text::{chars_of, digit_value, join2, str_eq};
use crate::text_map::{lists_keys, TextMap};

verus! {

/// The service type that is announced.
pub const SERVICE_TYPE: &'static str = "_googlecast._tcp.local.";

/// What a receiver says of itself.
pub struct AdvertiseInfo {
    pub friendly_name: String,
    pub port: u16,
    pub capabilities: DeviceCapabilities,
    pub device_id: String,
    pub icon: Vec<u8>,
    pub txt: TextMap<String>,
}

/// A text record: its key and its value.
pub type Record = (Seq<char>, Seq<char>);

/// The records as texts.
pub open spec fn records_of(props: Seq<(String, String)>) -> Seq<Record> {
    props.map_values(|p: (String, String)| (p.0@, p.1@))
}

/// Whether the character is a hexadecimal digit.
pub open spec fn is_hex(c: char) -> bool {
    ('0' <= c && c <= '9') || ('a' <= c && c <= 'f') || ('A' <= c && c <= 'F')
}

/// The hexadecimal digit in upper case.
pub open spec fn upper_hex(c: char) -> char {
    if c == 'a' {
        'A'
    } else if c == 'b' {
        'B'
    } else if c == 'c' {
        'C'
    } else if c == 'd' {
        'D'
    } else if c == 'e' {
        'E'
    } else if c == 'f' {
        'F'
    } else {
        c
    }
}

/// The first `n` hexadecimal digits of a text, in upper case.
pub open spec fn first_hex(s: Seq<char>, n: nat) -> Seq<char>
    decreases s.len(),
{
    if s.len() == 0 || n == 0 {
        Seq::empty()
    } else if is_hex(s[0]) {
        seq![upper_hex(s[0])] + first_hex(s.skip(1), (n - 1) as nat)
    } else {
        first_hex(s.skip(1), n)
    }
}

fn upper(c: char) -> (u: char)
    ensures
        u == upper_hex(c),
{
    match c {
        'a' => 'A',
        'b' => 'B',
        'c' => 'C',
        'd' => 'D',
        'e' => 'E',
        'f' => 'F',
        _ => c,
    }
}

/// The address of the radio that is announced: twelve digits of the device's
/// identifier.
pub fn radio_address(device_id: &str) -> (out: String)
    ensures
        out@ == first_hex(device_id@, 12),
{
    let chars: Vec<char> = chars_of(device_id);
    let mut out: String = String::new();
    let mut taken: usize = 0;
    let mut i: usize = 0;
    assert(device_id@.skip(0) =~= device_id@);
    assert(out@ + first_hex(device_id@, 12) =~= first_hex(device_id@, 12));
    while i < chars.len() && taken < 12
        invariant
            chars@ == device_id@,
            i <= chars@.len(),
            taken <= 12,
            out@ + first_hex(device_id@.skip(i as int), (12 - taken) as nat) == first_hex(
                device_id@,
                12,
            ),
        decreases chars@.len() - i,
    {
        let c: char = chars[i];
        let ghost rest = device_id@.skip(i as int);
        let ghost before = out@;
        assert(rest.skip(1) =~= device_id@.skip(i + 1));
        if ('0' <= c && c <= '9') || ('a' <= c && c <= 'f') || ('A' <= c && c <= 'F') {
            out.push(upper(c));
            assert(out@ + first_hex(rest.skip(1), (12 - taken - 1) as nat) =~= before + first_hex(
                rest,
                (12 - taken) as nat,
            ));
            taken = taken + 1;
        }
        i = i + 1;
    }
    assert(out@ =~= first_hex(device_id@, 12));
    out
}

/// The records that are announced unless the caller says otherwise, in their
/// order.
pub open spec fn default_records(device_id: Seq<char>, friendly_name: Seq<char>) -> Seq<Record> {
    seq![
        ("id"@, device_id),
        ("fn"@, friendly_name),
        ("md"@, "Chromecast Ultra"@),
        ("ca"@, "5"@),
        ("ic"@, "/setup/icon.png"@),
        ("ve"@, "05"@),
        ("nf"@, "1"@),
        ("bs"@, first_hex(device_id, 12)),
        ("st"@, "0"@),
    ]
}

/// The place of the first record with the key from `from` on, or the number of
/// records.
pub open spec fn record_place(records: Seq<Record>, key: Seq<char>, from: int) -> int
    decreases records.len() - from,
{
    if from >= records.len() {
        records.len() as int
    } else if records[from].0 == key {
        from
    } else {
        record_place(records, key, from + 1)
    }
}

/// The records with one more: it takes the place of a record with its key,
/// else it comes last.
pub open spec fn with_record(records: Seq<Record>, key: Seq<char>, value: Seq<char>) -> Seq<Record> {
    let at = record_place(records, key, 0);
    if 0 <= at < records.len() {
        records.update(at, (records[at].0, value))
    } else {
        records.push((key, value))
    }
}

/// The records with those of the caller, in the order of `names`.
pub open spec fn with_records(
    records: Seq<Record>,
    names: Seq<Seq<char>>,
    txt: Map<Seq<char>, String>,
) -> Seq<Record>
    decreases names.len(),
{
    if names.len() == 0 {
        records
    } else {
        with_record(with_records(records, names.drop_last(), txt), names.last(), txt[names.last()]@)
    }
}

fn put_record(props: &mut Vec<(String, String)>, key: &str, value: &str)
    ensures
        records_of(final(props)@) == with_record(records_of(old(props)@), key@, value@),
{
    let ghost all = records_of(props@);
    let mut i: usize = 0;
    while i < props.len()
        invariant
            i <= props@.len(),
            props@ == old(props)@,
            all == records_of(props@),
            all == records_of(old(props)@),
            record_place(all, key@, i as int) == record_place(all, key@, 0),
        decreases props@.len() - i,
    {
        assert(all[i as int] == (props@[i as int].0@, props@[i as int].1@));
        if str_eq(props[i].0.as_str(), key) {
            let name: String = props[i].0.clone();
            props.set(i, (name, value.to_owned()));
            assert(records_of(props@) =~= all.update(i as int, (all[i as int].0, value@)));
            return ;
        }
        i = i + 1;
    }
    props.push((key.to_owned(), value.to_owned()));
    assert(records_of(props@) =~= all.push((key@, value@)));
}

fn push_record(props: &mut Vec<(String, String)>, key: &str, value: &str)
    ensures
        records_of(final(props)@) == records_of(old(props)@).push((key@, value@)),
{
    let ghost before = props@;
    props.push((key.to_owned(), value.to_owned()));
    assert(records_of(props@) =~= records_of(before).push((key@, value@)));
}

/// The records to announce: the default ones, with those of the caller in
/// their place or behind them.
pub fn text_records(info: &AdvertiseInfo) -> (props: Vec<(String, String)>)
    ensures
        records_of(props@) == with_records(
            default_records(info.device_id@, info.friendly_name@),
            info.txt.names(),
            info.txt@,
        ),
        lists_keys(info.txt.names(), info.txt@),
{
    let mut props: Vec<(String, String)> = Vec::new();
    assert(records_of(props@) =~= Seq::<Record>::empty());
    push_record(&mut props, "id", info.device_id.as_str());
    push_record(&mut props, "fn", info.friendly_name.as_str());
    push_record(&mut props, "md", "Chromecast Ultra");
    push_record(&mut props, "ca", "5");
    push_record(&mut props, "ic", "/setup/icon.png");
    push_record(&mut props, "ve", "05");
    push_record(&mut props, "nf", "1");
    let radio: String = radio_address(info.device_id.as_str());
    push_record(&mut props, "bs", radio.as_str());
    push_record(&mut props, "st", "0");
    let ghost plain = default_records(info.device_id@, info.friendly_name@);
    assert(records_of(props@) =~= plain);
    let n: usize = info.txt.len();
    let ghost names = info.txt.names();
    let mut i: usize = 0;
    while i < n
        invariant
            i <= n,
            n == names.len(),
            n == info.txt@.dom().len(),
            names == info.txt.names(),
            records_of(props@) == with_records(plain, names.take(i as int), info.txt@),
        decreases n - i,
    {
        match info.txt.entry(i) {
            Some(pair) => {
                put_record(&mut props, pair.0, pair.1.as_str());
                assert(names.take(i + 1).drop_last() =~= names.take(i as int));
                assert(names.take(i + 1).last() == pair.0@);
            },
            None => {},
        }
        i = i + 1;
    }
    assert(names.take(n as int) =~= names);
    props
}

proof fn lemma_place(records: Seq<Record>, key: Seq<char>, from: int)
    requires
        0 <= from <= records.len(),
    ensures
        from <= record_place(records, key, from) <= records.len(),
        record_place(records, key, from) < records.len() ==> records[record_place(
            records,
            key,
            from,
        )].0 == key,
        forall|i: int| from <= i < record_place(records, key, from) ==> records[i].0 != key,
    decreases records.len() - from,
{
    if from < records.len() && records[from].0 != key {
        lemma_place(records, key, from + 1);
    }
}

/// Whether no two records have the same key.
pub open spec fn keys_distinct(records: Seq<Record>) -> bool {
    forall|i: int, j: int|
        0 <= i < j < records.len() ==> (#[trigger] records[i]).0 != (#[trigger] records[j]).0
}

/// Whether the record is there.
pub open spec fn announces(records: Seq<Record>, key: Seq<char>, value: Seq<char>) -> bool {
    exists|i: int| 0 <= i < records.len() && #[trigger] records[i] == (key, value)
}

/// The caller's records win: each is announced, the keys stay distinct, and
/// the records that came before keep their places and their keys, and their
/// values unless the caller gave another.
pub proof fn callers_records_win(
    records: Seq<Record>,
    names: Seq<Seq<char>>,
    txt: Map<Seq<char>, String>,
)
    requires
        keys_distinct(records),
        names.no_duplicates(),
    ensures
        ({
            let all = with_records(records, names, txt);
            &&& keys_distinct(all)
            &&& all.len() >= records.len()
            &&& forall|i: int|
                0 <= i < records.len() ==> (#[trigger] all[i]).0 == records[i].0 && (
                !names.contains(records[i].0) ==> all[i].1 == records[i].1)
            &&& forall|k: int|
                0 <= k < names.len() ==> announces(all, #[trigger] names[k], txt[names[k]]@)
            &&& forall|i: int|
                records.len() <= i < all.len() ==> names.contains((#[trigger] all[i]).0)
        }),
    decreases names.len(),
{
    if names.len() > 0 {
        let head = names.drop_last();
        let key = names.last();
        let value = txt[key]@;
        let before = with_records(records, head, txt);
        let all = with_records(records, names, txt);
        callers_records_win(records, head, txt);
        lemma_place(before, key, 0);
        let at = record_place(before, key, 0);
        assert(names[names.len() - 1] == key);
        assert(all[at] == (key, value));
        assert forall|i: int, j: int| 0 <= i < j < all.len() implies (#[trigger] all[i]).0 != (
        #[trigger] all[j]).0 by {
            if j < before.len() {
                assert(all[i].0 == before[i].0);
                assert(all[j].0 == before[j].0);
            } else {
                assert(all[i].0 == before[i].0);
            }
        }
        assert forall|i: int| 0 <= i < records.len() implies (#[trigger] all[i]).0 == records[i].0
            && (!names.contains(records[i].0) ==> all[i].1 == records[i].1) by {
            assert(before[i].0 == records[i].0);
            if !names.contains(records[i].0) {
                assert(records[i].0 != key);
                if head.contains(records[i].0) {
                    let k = choose|k: int| 0 <= k < head.len() && head[k] == records[i].0;
                    assert(names[k] == records[i].0);
                }
            }
        }
        assert forall|k: int| 0 <= k < names.len() implies announces(
            all,
            #[trigger] names[k],
            txt[names[k]]@,
        ) by {
            if k < names.len() - 1 {
                assert(head[k] == names[k]);
                let i = choose|i: int|
                    0 <= i < before.len() && #[trigger] before[i] == (names[k], txt[names[k]]@);
                assert(names[k] != key);
                assert(i != at);
                assert(all[i] == before[i]);
            } else {
                assert(all[at] == (names[k], txt[names[k]]@));
            }
        }
        assert forall|i: int| records.len() <= i < all.len() implies names.contains(
            (#[trigger] all[i]).0,
        ) by {
            if i < before.len() {
                assert(all[i].0 == before[i].0);
                assert(head.contains(before[i].0));
                let k = choose|k: int| 0 <= k < head.len() && head[k] == before[i].0;
                assert(names[k] == before[i].0);
            }
        }
    }
}

/// No key is among the default records twice.
pub proof fn default_keys_are_distinct(device_id: Seq<char>, friendly_name: Seq<char>)
    ensures
        keys_distinct(default_records(device_id, friendly_name)),
{
    reveal_strlit("id");
    reveal_strlit("fn");
    reveal_strlit("md");
    reveal_strlit("ca");
    reveal_strlit("ic");
    reveal_strlit("ve");
    reveal_strlit("nf");
    reveal_strlit("bs");
    reveal_strlit("st");
    assert("id"@[0] == 'i' && "id"@[1] == 'd');
    assert("ic"@[0] == 'i' && "ic"@[1] == 'c');
    assert("fn"@[0] == 'f');
    assert("md"@[0] == 'm');
    assert("ca"@[0] == 'c');
    assert("ve"@[0] == 'v');
    assert("nf"@[0] == 'n');
    assert("bs"@[0] == 'b');
    assert("st"@[0] == 's');
}

/// A process never finds its own receiver: once a receiver is registered, its
/// service is passed over by discovery. The caller must not have put another
/// identifier into the records.
pub proof fn own_announcement_is_passed_over(
    device_id: Seq<char>,
    friendly_name: Seq<char>,
    names: Seq<Seq<char>>,
    txt: Map<Seq<char>, String>,
    own: Set<Seq<char>>,
    service: ResolvedService,
)
    requires
        names.no_duplicates(),
        !names.contains("id"@),
        service.txt@.dom().contains("id"@),
        announces(
            with_records(default_records(device_id, friendly_name), names, txt),
            "id"@,
            service.txt@["id"@]@,
        ),
    ensures
        is_own(own.insert(device_id), service),
{
    let plain = default_records(device_id, friendly_name);
    let all = with_records(plain, names, txt);
    let told = service.txt@["id"@]@;
    default_keys_are_distinct(device_id, friendly_name);
    callers_records_win(plain, names, txt);
    assert(plain[0] == ("id"@, device_id));
    assert(all[0].0 == "id"@ && all[0].1 == device_id);
    let i = choose|i: int| 0 <= i < all.len() && #[trigger] all[i] == ("id"@, told);
    if i != 0 {
        assert(all[0].0 != all[i].0);
    }
}

/// The interface that announcements are limited to.
#[derive(Debug, PartialEq, Eq)]
pub enum Pin {
    /// None: announcements go out on every interface.
    Open,
    /// The one with the address.
    Addr(IpAddress),
    /// The one with the name.
    Name(String),
}

/// The interface to announce on.
pub open spec fn pin_of(
    chosen: Option<(String, Option<IpAddress>)>,
    route: Option<IpAddress>,
) -> Pin {
    match chosen {
        Some(c) => match c.1 {
            Some(ip) => Pin::Addr(ip),
            None => Pin::Name(c.0),
        },
        None => match route {
            Some(ip) => Pin::Addr(ip),
            None => Pin::Open,
        },
    }
}

/// The interface to announce on. The caller's choice, and the address that it
/// spells, if it spells one, come before the address of the default route.
pub fn pin_lan_interface(chosen: Option<(String, Option<IpAddress>)>, route: Option<IpAddress>) -> (
pin: Pin)
    ensures
        pin == pin_of(chosen, route),
{
    match chosen {
        Some(c) => match c.1 {
            Some(ip) => Pin::Addr(ip),
            None => Pin::Name(c.0),
        },
        None => match route {
            Some(ip) => Pin::Addr(ip),
            None => Pin::Open,
        },
    }
}

/// The announcement of a service.
pub struct Announcement {
    pub instance: String,
    pub hostname: String,
    pub port: u16,
    pub records: Vec<(String, String)>,
    /// The address to announce; where there is none, the announcer finds one.
    pub address: Option<IpAddress>,
}

/// The host name of a receiver.
pub open spec fn host_name(device_id: Seq<char>) -> Seq<char> {
    device_id + "-ferricast.local."@
}

/// The address to announce, where there is just one.
pub open spec fn pinned_address(pin: Pin) -> Option<IpAddress> {
    match pin {
        Pin::Addr(ip) => Some(ip),
        _ => None,
    }
}

/// The announcement of a receiver. An address is part of it where the
/// interface was chosen by its address.
pub fn announcement(info: &AdvertiseInfo, pin: &Pin) -> (a: Announcement)
    ensures
        a.instance@ == info.friendly_name@,
        a.hostname@ == host_name(info.device_id@),
        a.port == info.port,
        records_of(a.records@) == with_records(
            default_records(info.device_id@, info.friendly_name@),
            info.txt.names(),
            info.txt@,
        ),
        a.address == pinned_address(*pin),
{
    let address: Option<IpAddress> = match pin {
        Pin::Addr(ip) => Some(*ip),
        _ => None,
    };
    Announcement {
        instance: info.friendly_name.clone(),
        hostname: join2(info.device_id.as_str(), "-ferricast.local."),
        port: info.port,
        records: text_records(info),
        address,
    }
}

/// Whether a receiver is announced, and under which name and identifier.
pub struct ChromecastReceiverAdvertiser {
    /// The full name of the announced service.
    pub fullname: Option<String>,
    /// The identifier of the announced receiver.
    pub device_id: Option<String>,
}

impl ChromecastReceiverAdvertiser {
    /// Nothing is announced.
    pub fn new() -> (a: Self)
        ensures
            a == (ChromecastReceiverAdvertiser { fullname: None, device_id: None }),
    {
        ChromecastReceiverAdvertiser { fullname: None, device_id: None }
    }

    /// The service is announced; discovery passes it over from now on.
    pub fn started(&mut self, own: &mut SelfFilter, fullname: String, device_id: String)
        ensures
            *final(self) == (ChromecastReceiverAdvertiser {
                fullname: Some(fullname),
                device_id: Some(device_id),
            }),
            final(own)@ == old(own)@.insert(device_id@),
    {
        own.register(device_id.as_str());
        self.fullname = Some(fullname);
        self.device_id = Some(device_id);
    }

    /// Stops announcing: the service to take back, if there is one. Discovery
    /// sees the receiver again.
    pub fn stop(&mut self, own: &mut SelfFilter) -> (fullname: Option<String>)
        ensures
            fullname == old(self).fullname,
            *final(self) == (ChromecastReceiverAdvertiser { fullname: None, device_id: None }),
            final(own)@ == match old(self).device_id {
                Some(id) => old(own)@.remove(id@),
                None => old(own)@,
            },
    {
        match self.device_id.take() {
            Some(id) => own.unregister(id.as_str()),
            None => {},
        }
        self.fullname.take()
    }

    /// Whether a service is announced.
    pub fn is_running(&self) -> (running: bool)
        ensures
            running == (self.fullname is Some),
    {
        self.fullname.is_some()
    }
}

/// A receiver announces what senders look for: its identifier, its name, a model
/// that shows video, that it plays video and sound, its icon, the version, and
/// an address of its radio that stays the same.
pub proof fn receivers_announce_what_senders_look_for(id: Seq<char>, name: Seq<char>)
    ensures
        ({
            let r = default_records(id, name);
            &&& announces(r, "id"@, id)
            &&& announces(r, "fn"@, name)
            &&& announces(r, "md"@, "Chromecast Ultra"@)
            &&& announces(r, "ca"@, "5"@)
            &&& announces(r, "ic"@, "/setup/icon.png"@)
            &&& announces(r, "ve"@, "05"@)
            &&& announces(r, "nf"@, "1"@)
            &&& announces(r, "st"@, "0"@)
            &&& announces(r, "bs"@, first_hex(id, 12))
            &&& r.len() == 9
            &&& r[0].0 == "id"@ && r[1].0 == "fn"@ && r[2].0 == "md"@ && r[3].0 == "ca"@
            &&& r[4].0 == "ic"@ && r[5].0 == "ve"@ && r[6].0 == "nf"@ && r[7].0 == "bs"@
            &&& r[8].0 == "st"@
        }),
        SERVICE_TYPE@ == "_googlecast._tcp.local."@,
{
    let r = default_records(id, name);
    assert(r[0] == ("id"@, id));
    assert(r[1] == ("fn"@, name));
    assert(r[2] == ("md"@, "Chromecast Ultra"@));
    assert(r[3] == ("ca"@, "5"@));
    assert(r[4] == ("ic"@, "/setup/icon.png"@));
    assert(r[5] == ("ve"@, "05"@));
    assert(r[6] == ("nf"@, "1"@));
    assert(r[7] == ("bs"@, first_hex(id, 12)));
    assert(r[8] == ("st"@, "0"@));
}

/// The address of the radio is made of the first digits of the identifier, at
/// most so many, in upper case; what is no digit is passed over.
pub proof fn radio_address_is_made_of_digits(s: Seq<char>, c: char, n: nat)
    ensures
        first_hex(s, n).len() <= n,
        forall|i: int|
            0 <= i < first_hex(s, n).len() ==> is_hex(#[trigger] first_hex(s, n)[i]) && !('a'
                <= first_hex(s, n)[i]),
        !is_hex(c) ==> first_hex(seq![c] + s, n) == first_hex(s, n),
        is_hex(c) && n > 0 ==> first_hex(seq![c] + s, n).len() == 1 + first_hex(
            s,
            (n - 1) as nat,
        ).len() && digit_value(first_hex(seq![c] + s, n)[0], 16) == digit_value(c, 16)
            && digit_value(c, 16) is Some,
    decreases s.len(),
{
    assert((seq![c] + s).skip(1) =~= s);
    if s.len() > 0 && n > 0 {
        radio_address_is_made_of_digits(s.skip(1), c, n);
        radio_address_is_made_of_digits(s.skip(1), c, (n - 1) as nat);
        let all = first_hex(s, n);
        if is_hex(s[0]) {
            let rest = first_hex(s.skip(1), (n - 1) as nat);
            assert forall|i: int| 0 <= i < all.len() implies is_hex(#[trigger] all[i]) && !('a'
                <= all[i]) by {
                if i > 0 {
                    assert(all[i] == rest[i - 1]);
                }
            }
        }
    }
}

/// A host name tells the receiver's identifier, and ends as local names do.
pub proof fn host_names_tell_the_identifier(a: Seq<char>, b: Seq<char>)
    ensures
        host_name(a).take(a.len() as int) == a,
        host_name(a).skip(host_name(a).len() - 17) == "-ferricast.local."@,
        host_name(a) == host_name(b) ==> a == b,
{
    reveal_strlit("-ferricast.local.");
    let end = "-ferricast.local."@;
    assert(end.len() == 17);
    assert(host_name(a).take(a.len() as int) =~= a);
    assert(host_name(a).skip(a.len() as int) =~= end);
    assert(host_name(b).take(b.len() as int) =~= b);
}

/// An address is announced exactly where it was pinned.
pub proof fn pinned_addresses_are_announced(pin: Pin, ip: IpAddress)
    ensures
        pinned_address(Pin::Addr(ip)) == Some(ip),
        pin !is Addr ==> pinned_address(pin) is None,
{
}

/// A choice comes before the default route, and an address before a name;
/// without either the announcer is free.
pub proof fn choices_come_before_the_route(
    name: String,
    ip: IpAddress,
    route: Option<IpAddress>,
    other: IpAddress,
)
    ensures
        pin_of(Some((name, Some(ip))), route) == Pin::Addr(ip),
        pin_of(Some((name, None)), route) == Pin::Name(name),
        pin_of(None, Some(other)) == Pin::Addr(other),
        pin_of(None, None) == Pin::Open,
{
}

} // verus!
