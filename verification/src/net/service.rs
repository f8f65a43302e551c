//! The description of a service that the mDNS responder announces.

use vstd::prelude::*;
use vstd::utf8::{encode_utf8, is_ascii_chars};

use crate::text::has_part;

verus! {

/// `mdns_sd`'s description of a service.
#[verifier::external_type_specification]
#[verifier::external_body]
pub struct ExServiceInfo(mdns_sd::ServiceInfo);

/// `mdns_sd`'s errors.
#[verifier::external_type_specification]
#[verifier::external_body]
pub struct ExError(mdns_sd::Error);

/// A service ready to be announced, with what it says of itself. Only [`describe_service`] makes
/// one, so what it says is always what was read back from its own description.
pub struct Service {
    info: mdns_sd::ServiceInfo,
    fullname: String,
    host: String,
    port: u16,
    properties: Vec<(String, String)>,
}

impl Service {
    /// The instance name as it appears on the network.
    pub closed spec fn name(self) -> Seq<char> {
        self.fullname@
    }

    /// The name of the computer it is on.
    pub closed spec fn place(self) -> Seq<char> {
        self.host@
    }

    pub closed spec fn listening_on(self) -> u16 {
        self.port
    }

    /// The keys and values of its TXT record.
    pub closed spec fn record(self) -> Seq<(String, String)> {
        self.properties@
    }

    /// The description that is announced.
    pub closed spec fn description(self) -> mdns_sd::ServiceInfo {
        self.info
    }

    /// Whether all it says in its TXT record is this.
    pub open spec fn says(self, key: Seq<char>, value: Seq<char>) -> bool {
        &&& self.record().len() == 1
        &&& self.record()[0].0@ == key
        &&& self.record()[0].1@ == value
    }

    /// The instance name as it appears on the network.
    pub fn fullname(&self) -> (fullname: &str)
        ensures
            fullname@ == self.name(),
    {
        self.fullname.as_str()
    }

    /// The name of the computer it is on.
    pub fn host(&self) -> (host: &str)
        ensures
            host@ == self.place(),
    {
        self.host.as_str()
    }

    pub fn port(&self) -> (port: u16)
        ensures
            port == self.listening_on(),
    {
        self.port
    }

    /// The keys and values of its TXT record.
    pub fn properties(&self) -> (properties: &Vec<(String, String)>)
        ensures
            properties@ == self.record(),
    {
        &self.properties
    }

    /// The description, to be announced.
    pub fn into_info(self) -> (info: mdns_sd::ServiceInfo)
        ensures
            info == self.description(),
    {
        self.info
    }
}

/// An instance name as it stands in front of a service type: a dot or a backslash in it gets a
/// backslash in front.
pub open spec fn escaped(name: Seq<char>) -> Seq<char>
    decreases name.len(),
{
    if name.len() == 0 {
        Seq::empty()
    } else if name.last() == '.' || name.last() == '\\' {
        escaped(name.drop_last()).push('\\').push(name.last())
    } else {
        escaped(name.drop_last()).push(name.last())
    }
}

/// Whether a text ends in another.
pub open spec fn ends_in(text: Seq<char>, end: Seq<char>) -> bool {
    text.len() >= end.len() && text.skip(text.len() - end.len()) == end
}

/// `mdns_sd::ServiceInfo::new`, without addresses and with one TXT property: it succeeds exactly
/// if the property's key is ASCII without `=` and the property fits into 255 bytes. The full name
/// is the escaped instance name, a dot and the service type; the host is the one it was given,
/// unless that ends in `.local.` twice; the port and the property are those it was given.
#[verifier::external_body]
pub(crate) fn describe_service(
    service_type: &str,
    instance: &str,
    host: &str,
    port: u16,
    key: &str,
    value: &str,
) -> (service: Result<Service, mdns_sd::Error>)
    requires
        !has_part(service_type@, "._sub."@),
    ensures
        service is Ok <==> {
            &&& is_ascii_chars(key@)
            &&& !key@.contains('=')
            &&& encode_utf8(key@).len() + 1 + encode_utf8(value@).len() <= 255
        },
        service matches Ok(service) ==> {
            &&& service.name() == escaped(instance@) + "."@ + service_type@
            &&& !ends_in(host@, ".local.local."@) ==> service.place() == host@
            &&& service.listening_on() == port
            &&& service.says(key@, value@)
        },
{
    let text = |p: &mdns_sd::TxtProperty| (p.key().to_string(), p.val_str().to_string());
    mdns_sd::ServiceInfo::new(service_type, instance, host, (), port, &[(key, value)][..]).map(
        |info| Service {
            fullname: info.get_fullname().to_string(),
            host: info.get_hostname().to_string(),
            port: info.get_port(),
            properties: info.get_properties().iter().map(text).collect(),
            info,
        },
    )
}

/// Escaping goes character by character: a dot becomes a backslash and a dot, a backslash becomes
/// two, and everything else stays.
pub proof fn escaping_goes_by_character(a: Seq<char>, b: Seq<char>, c: char)
    ensures
        escaped(a + b) == escaped(a) + escaped(b),
        escaped(seq![c]) == if c == '.' || c == '\\' {
            seq!['\\', c]
        } else {
            seq![c]
        },
    decreases b.len(),
{
    assert(seq![c].drop_last() =~= Seq::<char>::empty());
    assert(escaped(seq![c].drop_last()) =~= Seq::<char>::empty());
    assert(escaped(seq![c]) =~= if c == '.' || c == '\\' {
        seq!['\\', c]
    } else {
        seq![c]
    });
    if b.len() == 0 {
        assert(a + b =~= a);
        assert(escaped(a) + escaped(b) =~= escaped(a));
    } else {
        escaping_goes_by_character(a, b.drop_last(), c);
        assert((a + b).drop_last() =~= a + b.drop_last());
        assert(escaped(a + b) =~= escaped(a) + escaped(b));
    }
}

/// A name without dots and backslashes stands as it is.
pub proof fn plain_names_are_not_escaped(name: Seq<char>)
    requires
        forall|i: int| 0 <= i < name.len() ==> #[trigger] name[i] != '.' && name[i] != '\\',
    ensures
        escaped(name) == name,
    decreases name.len(),
{
    if name.len() > 0 {
        assert(name.last() == name[name.len() - 1]);
        plain_names_are_not_escaped(name.drop_last());
        assert(escaped(name) =~= name);
    } else {
        assert(escaped(name) =~= name);
    }
}

} // verus!
