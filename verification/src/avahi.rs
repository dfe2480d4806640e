use vstd::prelude::*;
use vstd::utf8::encode_utf8;

verus! {

/// The name under which the service announces itself.
pub const PACKAGE: &'static str = "dispatch";

/// An Avahi entry group, held by its D-Bus object path; the bus connection
/// that talks to it lives with the caller.
pub struct AvahiService {
    entry_group: String,
}

/// The arguments of one `AddService` call on an Avahi entry group.
#[derive(Debug)]
pub struct ServiceRecord {
    /// The network interface (-1: all).
    pub interface: i32,
    /// The protocol (0: IPv4).
    pub protocol: i32,
    /// Publishing flags (0: none).
    pub flags: u32,
    /// The instance name.
    pub name: String,
    /// The service type, `_<package>._tcp`.
    pub service_type: String,
    /// The domain ("": the default).
    pub domain: String,
    /// The host ("": the local host).
    pub host: String,
    pub port: u16,
    /// TXT records, each `key=value` in UTF-8.
    pub txt: Vec<Vec<u8>>,
}

/// The service type under which the service is browsed for.
pub open spec fn service_type_spec() -> Seq<char> {
    "_"@ + PACKAGE@ + "._tcp"@
}

/// The TXT record for `key` and `value`: `key=value` in UTF-8.
pub open spec fn txt_record(key: Seq<char>, value: Seq<char>) -> Seq<u8> {
    encode_utf8(key + "="@ + value)
}

impl AvahiService {
    /// The entry group at D-Bus object path `entry_group`.
    pub fn new(entry_group: String) -> (s: AvahiService)
        ensures
            s.entry_group_spec() == entry_group@,
    {
        AvahiService { entry_group }
    }

    pub closed spec fn entry_group_spec(&self) -> Seq<char> {
        self.entry_group@
    }

    /// The D-Bus object path of the entry group.
    pub fn entry_group(&self) -> (p: &str)
        ensures
            p@ == self.entry_group_spec(),
    {
        self.entry_group.as_str()
    }

    /// The `AddService` call that registers instance `name` on `port` with
    /// TXT records `txt`: on every interface, over IPv4, without flags, in
    /// the default domain, on the local host, under the package's service
    /// type.
    pub fn register(&self, name: &str, port: u16, txt: &[(&str, &str)]) -> (r: ServiceRecord)
        ensures
            r.interface == -1,
            r.protocol == 0,
            r.flags == 0,
            r.name@ == name@,
            r.service_type@ == service_type_spec(),
            r.domain@ == Seq::<char>::empty(),
            r.host@ == Seq::<char>::empty(),
            r.port == port,
            r.txt@.len() == txt@.len(),
            forall|i: int|
                0 <= i < txt@.len() ==> (#[trigger] r.txt@[i])@ == txt_record(
                    txt@[i].0@,
                    txt@[i].1@,
                ),
    {
        let mut service_type = String::from_str("_");
        service_type.append(PACKAGE);
        service_type.append("._tcp");
        let mut records: Vec<Vec<u8>> = Vec::new();
        let mut i: usize = 0;
        while i < txt.len()
            invariant
                i <= txt@.len(),
                records@.len() == i,
                forall|k: int|
                    0 <= k < i ==> (#[trigger] records@[k])@ == txt_record(
                        txt@[k].0@,
                        txt@[k].1@,
                    ),
            decreases txt@.len() - i,
        {
            let (key, value) = txt[i];
            let mut line = String::from_str(key);
            line.append("=");
            line.append(value);
            let bytes = vstd::slice::slice_to_vec(line.as_str().as_bytes());
            records.push(bytes);
            i += 1;
        }
        ServiceRecord {
            interface: -1,
            protocol: 0,
            flags: 0,
            name: String::from_str(name),
            service_type,
            domain: String::new(),
            host: String::new(),
            port,
            txt: records,
        }
    }
}

/// The lower-case hexadecimal digit `d`.
pub open spec fn hex_char(d: nat) -> char {
    if d < 10 {
        (48 + d) as char
    } else {
        (87 + d) as char
    }
}

/// The last `k` hexadecimal digits of `n`, zero-padded.
pub open spec fn hex_digits(n: nat, k: nat) -> Seq<char>
    decreases k,
{
    if k == 0 {
        Seq::empty()
    } else {
        hex_digits(n / 16, (k - 1) as nat).push(hex_char(n % 16))
    }
}

/// The one-character string of hexadecimal digit `d`.
fn hex_str(d: u32) -> (s: &'static str)
    requires
        d < 16,
    ensures
        s@ == seq![hex_char(d as nat)],
{
    proof {
        reveal_strlit("a");
        reveal_strlit("b");
        reveal_strlit("c");
        reveal_strlit("d");
        reveal_strlit("e");
        reveal_strlit("f");
    }
    if d < 10 {
        crate::units::digit_str(d as u8)
    } else if d == 10 {
        "a"
    } else if d == 11 {
        "b"
    } else if d == 12 {
        "c"
    } else if d == 13 {
        "d"
    } else if d == 14 {
        "e"
    } else {
        "f"
    }
}

/// Appends the last `k` hexadecimal digits of `n`.
fn push_hex(s: &mut String, n: u32, k: u32)
    ensures
        final(s)@ == old(s)@ + hex_digits(n as nat, k as nat),
    decreases k,
{
    if k > 0 {
        push_hex(s, n / 16, k - 1);
        s.append(hex_str(n % 16));
        proof {
            assert(final(s)@ =~= old(s)@ + hex_digits(n as nat, k as nat));
        }
    } else {
        proof {
            assert(final(s)@ =~= old(s)@ + hex_digits(n as nat, k as nat));
        }
    }
}

/// The instance name: the package name, followed by `-` and the random
/// value in eight hexadecimal digits when there is one, else by `-` and the
/// chosen suffix when there is one.
pub open spec fn service_name_spec(random: Option<u32>, suffix: Option<Seq<char>>) -> Seq<char> {
    match random {
        Some(r) => PACKAGE@ + "-"@ + hex_digits(r as nat, 8),
        None => match suffix {
            Some(x) => PACKAGE@ + "-"@ + x,
            None => PACKAGE@,
        },
    }
}

/// The instance name for a random value or a chosen suffix (see
/// `service_name_spec`).
pub fn service_name_with(random: Option<u32>, suffix: Option<&str>) -> (name: String)
    ensures
        name@ == service_name_spec(
            random,
            match suffix {
                Some(x) => Some(x@),
                None => None,
            },
        ),
{
    let mut name = String::from_str(PACKAGE);
    match random {
        Some(r) => {
            name.append("-");
            push_hex(&mut name, r, 8);
        },
        None => match suffix {
            Some(x) => {
                name.append("-");
                name.append(x);
            },
            None => {},
        },
    }
    name
}

/// A value drawn from the operating system's random source, by
/// `rand::TryRng::try_next_u32` on `rand::rngs::SysRng`; `None` when the
/// source fails. Nothing is promised of the value.
#[verifier::external_body]
fn random_u32() -> (r: Option<u32>) {
    match rand::TryRng::try_next_u32(&mut rand::rngs::SysRng) {
        Ok(v) => Some(v),
        Err(_) => None,
    }
}

/// The instance name: with a fresh random suffix when `random` is set, else
/// with `suffix` when one is given, else the package name alone. `None` when
/// a random suffix is asked for and the random source fails.
pub fn service_name(random: bool, suffix: Option<&str>) -> (name: Option<String>)
    ensures
        random ==> match name {
            Some(n) => exists|r: u32| n@ == service_name_spec(Some(r), None),
            None => true,
        },
        !random ==> (name matches Some(n) && n@ == service_name_spec(
            None,
            match suffix {
                Some(x) => Some(x@),
                None => None,
            },
        )),
{
    if random {
        match random_u32() {
            Some(r) => Some(service_name_with(Some(r), None)),
            None => None,
        }
    } else {
        Some(service_name_with(None, suffix))
    }
}

} // verus!
