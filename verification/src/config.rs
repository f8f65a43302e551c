//! The receiver's settings.
//!
//! Portable by default: `nearscreen-receiver.json` next to the binary, so a copied folder carries
//! its settings with it. When that directory is not writable (Program Files, a read-only volume)
//! the user's own config directory is used instead.

use vstd::prelude::*;

use crate::net::protocol::DEFAULT_PORT;
use crate::text::same_text;

verus! {

/// Name of the settings file, in both locations.
pub const FILE_NAME: &'static str = "nearscreen-receiver.json";

/// A phone the person has already accepted.
#[derive(Debug, PartialEq, Eq)]
pub struct AllowedDevice {
    /// The phone's id, stable for this app on that phone.
    pub id: String,
    /// Whatever the phone called itself when it was accepted, for the settings UI.
    pub name: String,
}

impl Clone for AllowedDevice {
    fn clone(&self) -> (copy: Self)
        ensures
            copy == *self,
    {
        AllowedDevice { id: self.id.clone(), name: self.name.clone() }
    }
}

/// Everything the receiver remembers between runs.
#[derive(Debug, PartialEq)]
pub struct Config {
    pub port: u16,
    pub allowed_devices: Vec<AllowedDevice>,
    pub start_at_login: bool,
    /// Address of the network interface to advertise, when there are several.
    pub preferred_interface: Option<String>,
}

/// The phones in a list, each by its id and its name.
pub open spec fn phones(devices: Seq<AllowedDevice>) -> Seq<(Seq<char>, Seq<char>)> {
    devices.map_values(|device: AllowedDevice| (device.id@, device.name@))
}

/// Whether a phone of this id is in the list.
pub open spec fn listed(phones: Seq<(Seq<char>, Seq<char>)>, id: Seq<char>) -> bool {
    exists|i: int| 0 <= i < phones.len() && (#[trigger] phones[i]).0 == id
}

/// The list after a phone was allowed: the first entry of its id gets the new name; where there
/// is none, one is added at the end.
pub open spec fn with_phone(
    phones: Seq<(Seq<char>, Seq<char>)>,
    id: Seq<char>,
    name: Seq<char>,
) -> Seq<(Seq<char>, Seq<char>)>
    decreases phones.len(),
{
    if phones.len() == 0 {
        seq![(id, name)]
    } else if phones[0].0 == id {
        seq![(id, name)] + phones.skip(1)
    } else {
        seq![phones[0]] + with_phone(phones.skip(1), id, name)
    }
}

impl Clone for Config {
    fn clone(&self) -> (copy: Self)
        ensures
            copy.same_as(*self),
    {
        let mut devices: Vec<AllowedDevice> = Vec::new();
        let mut i: usize = 0;
        while i < self.allowed_devices.len()
            invariant
                i <= self.allowed_devices@.len(),
                devices@ == self.allowed_devices@.take(i as int),
            decreases self.allowed_devices@.len() - i,
        {
            devices.push(self.allowed_devices[i].clone());
            i += 1;
            assert(devices@ =~= self.allowed_devices@.take(i as int));
        }
        assert(devices@ =~= self.allowed_devices@);
        let preferred_interface = match &self.preferred_interface {
            Some(address) => Some(address.clone()),
            None => None,
        };
        Config {
            port: self.port,
            allowed_devices: devices,
            start_at_login: self.start_at_login,
            preferred_interface,
        }
    }
}

impl Default for Config {
    fn default() -> (config: Self)
        ensures
            config.is_default(),
    {
        Self {
            port: DEFAULT_PORT,
            allowed_devices: Vec::new(),
            start_at_login: false,
            preferred_interface: None,
        }
    }
}

/// What came of reading the settings file.
pub enum SettingsFile {
    /// There is no such file yet.
    Absent,
    /// It is there and cannot be read.
    Unreadable,
    /// It was read and holds no settings.
    Garbled,
    /// It holds these settings.
    Holds(Config),
}

impl SettingsFile {
    /// The settings in the file, none where there is no file, or why it is unusable.
    pub open spec fn content(self) -> Result<Option<Config>, SettingsError> {
        match self {
            SettingsFile::Absent => Ok(None),
            SettingsFile::Unreadable => Err(SettingsError::Read),
            SettingsFile::Garbled => Err(SettingsError::Parse),
            SettingsFile::Holds(stored) => Ok(Some(stored)),
        }
    }
}

/// Why a settings file is unusable.
#[derive(Debug, Clone, Copy, PartialEq, Eq, Structural)]
pub enum SettingsError {
    Read,
    Parse,
}

impl SettingsError {
    pub open spec fn text(self) -> Seq<char> {
        match self {
            SettingsError::Read => "cannot read the settings file"@,
            SettingsError::Parse => "cannot parse the settings file"@,
        }
    }

    /// What to tell a person.
    pub fn describe(self) -> (text: &'static str)
        ensures
            text@ == self.text(),
    {
        match self {
            SettingsError::Read => "cannot read the settings file",
            SettingsError::Parse => "cannot parse the settings file",
        }
    }
}

impl Config {
    /// Whether these are the settings of a receiver that was never set up.
    pub open spec fn is_default(self) -> bool {
        &&& self.port == DEFAULT_PORT
        &&& self.allowed_devices@.len() == 0
        &&& !self.start_at_login
        &&& self.preferred_interface is None
    }

    /// Whether two settings say the same.
    pub open spec fn same_as(self, other: Config) -> bool {
        &&& self.port == other.port
        &&& self.allowed_devices@ == other.allowed_devices@
        &&& self.start_at_login == other.start_at_login
        &&& self.preferred_interface == other.preferred_interface
    }

    /// The phones the person has accepted.
    pub open spec fn phones(self) -> Seq<(Seq<char>, Seq<char>)> {
        phones(self.allowed_devices@)
    }

    /// Whether a phone of this id may stream without being asked about.
    pub open spec fn knows(self, id: Seq<char>) -> bool {
        id.len() > 0 && listed(self.phones(), id)
    }

    /// These settings, but for whether the receiver starts with the computer.
    pub open spec fn starting_at_login(self, enabled: bool) -> Config {
        Config { start_at_login: enabled, ..self }
    }

    /// Whether these are the settings to start with, given what the file holds.
    pub open spec fn starts_from(self, file: Result<Option<Config>, SettingsError>) -> bool {
        match file {
            Ok(Some(stored)) => self == stored,
            _ => self.is_default(),
        }
    }

    /// The settings to start with, falling back to defaults on anything unreadable: a broken
    /// file must never keep the receiver from starting.
    pub fn load(file: Result<Option<Config>, SettingsError>) -> (config: Self)
        ensures
            config.starts_from(file),
    {
        match file {
            Ok(Some(stored)) => stored,
            Ok(None) => Config::default(),
            Err(_) => Config::default(),
        }
    }

    /// `Ok(None)` when the file simply is not there yet.
    pub fn load_from(file: SettingsFile) -> (config: Result<Option<Config>, SettingsError>)
        ensures
            config == file.content(),
    {
        match file {
            SettingsFile::Absent => Ok(None),
            SettingsFile::Unreadable => Err(SettingsError::Read),
            SettingsFile::Garbled => Err(SettingsError::Parse),
            SettingsFile::Holds(stored) => Ok(Some(stored)),
        }
    }

    pub fn is_allowed(&self, id: &str) -> (allowed: bool)
        ensures
            allowed == self.knows(id@),
    {
        if id.is_empty() {
            return false;
        }
        let mut i: usize = 0;
        while i < self.allowed_devices.len()
            invariant
                id@.len() > 0,
                i <= self.allowed_devices@.len(),
                forall|j: int| 0 <= j < i ==> (#[trigger] self.phones()[j]).0 != id@,
            decreases self.allowed_devices@.len() - i,
        {
            if same_text(self.allowed_devices[i].id.as_str(), id) {
                assert(self.phones()[i as int].0 == id@);
                return true;
            }
            i += 1;
        }
        false
    }

    /// Remembers a phone the person chose to always allow.
    pub fn allow(&mut self, id: &str, name: &str)
        ensures
            id@.len() == 0 ==> *final(self) == *old(self),
            id@.len() > 0 ==> final(self).phones() == with_phone(old(self).phones(), id@, name@),
            final(self).port == old(self).port,
            final(self).start_at_login == old(self).start_at_login,
            final(self).preferred_interface == old(self).preferred_interface,
    {
        if id.is_empty() {
            return;
        }
        let ghost before = self.phones();
        let mut i: usize = 0;
        while i < self.allowed_devices.len()
            invariant
                id@.len() > 0,
                *self == *old(self),
                before == self.phones(),
                i <= self.allowed_devices@.len(),
                forall|j: int| 0 <= j < i ==> (#[trigger] before[j]).0 != id@,
            decreases self.allowed_devices@.len() - i,
        {
            if same_text(self.allowed_devices[i].id.as_str(), id) {
                proof {
                    first_gets_the_name(before, id@, name@, i as int);
                }
                let device = AllowedDevice { id: id.to_owned(), name: name.to_owned() };
                self.allowed_devices.set(i, device);
                assert(self.phones() =~= before.update(i as int, (id@, name@)));
                return;
            }
            i += 1;
        }
        proof {
            unknown_goes_last(before, id@, name@);
        }
        self.allowed_devices.push(AllowedDevice { id: id.to_owned(), name: name.to_owned() });
        assert(self.phones() =~= before.push((id@, name@)));
    }
}

/// Allowing a phone that is listed gives its first entry the new name, and leaves every other
/// entry as it is and where it is.
pub proof fn first_gets_the_name(
    phones: Seq<(Seq<char>, Seq<char>)>,
    id: Seq<char>,
    name: Seq<char>,
    i: int,
)
    requires
        0 <= i < phones.len(),
        phones[i].0 == id,
        forall|j: int| 0 <= j < i ==> (#[trigger] phones[j]).0 != id,
    ensures
        with_phone(phones, id, name) == phones.update(i, (id, name)),
    decreases phones.len(),
{
    if i == 0 {
        assert(with_phone(phones, id, name) =~= phones.update(i, (id, name)));
    } else {
        assert(phones[0].0 != id);
        first_gets_the_name(phones.skip(1), id, name, i - 1);
        assert(with_phone(phones, id, name) =~= phones.update(i, (id, name)));
    }
}

/// Allowing a phone that is not listed adds it behind the others, and leaves those as they are.
pub proof fn unknown_goes_last(
    phones: Seq<(Seq<char>, Seq<char>)>,
    id: Seq<char>,
    name: Seq<char>,
)
    requires
        forall|j: int| 0 <= j < phones.len() ==> (#[trigger] phones[j]).0 != id,
    ensures
        with_phone(phones, id, name) == phones.push((id, name)),
    decreases phones.len(),
{
    if phones.len() > 0 {
        assert(phones[0].0 != id);
        assert forall|j: int| 0 <= j < phones.skip(1).len() implies (#[trigger] phones.skip(1)[j]).0
            != id by {
            assert(phones.skip(1)[j] == phones[j + 1]);
        }
        unknown_goes_last(phones.skip(1), id, name);
    }
    assert(with_phone(phones, id, name) =~= phones.push((id, name)));
}

/// A phone that was allowed is known, and every other phone is known exactly if it was before.
pub proof fn allowing_admits_that_phone_only(
    phones: Seq<(Seq<char>, Seq<char>)>,
    id: Seq<char>,
    name: Seq<char>,
    other: Seq<char>,
)
    ensures
        listed(with_phone(phones, id, name), other) == (other == id || listed(phones, other)),
    decreases phones.len(),
{
    let after = with_phone(phones, id, name);
    if phones.len() == 0 {
        assert(after[0].0 == id);
    } else {
        let rest = phones.skip(1);
        let tail = if phones[0].0 == id {
            rest
        } else {
            with_phone(rest, id, name)
        };
        if phones[0].0 != id {
            allowing_admits_that_phone_only(rest, id, name, other);
        }
        assert(after[0].0 == phones[0].0);
        listed_splits(after, other);
        listed_splits(phones, other);
        assert(after.skip(1) =~= tail);
    }
}

proof fn listed_splits(phones: Seq<(Seq<char>, Seq<char>)>, id: Seq<char>)
    requires
        phones.len() > 0,
    ensures
        listed(phones, id) == (phones[0].0 == id || listed(phones.skip(1), id)),
{
    if listed(phones, id) {
        let i = choose|i: int| 0 <= i < phones.len() && (#[trigger] phones[i]).0 == id;
        if i > 0 {
            assert(phones.skip(1)[i - 1] == phones[i]);
        }
    }
    if listed(phones.skip(1), id) {
        let i = choose|i: int|
            0 <= i < phones.skip(1).len() && (#[trigger] phones.skip(1)[i]).0 == id;
        assert(phones[i + 1] == phones.skip(1)[i]);
    }
}

/// Allowing the same phone twice leaves what allowing it the second time alone would have: one
/// entry, with the newer name.
pub proof fn allowing_twice_updates_the_name(
    phones: Seq<(Seq<char>, Seq<char>)>,
    id: Seq<char>,
    first: Seq<char>,
    second: Seq<char>,
)
    ensures
        with_phone(with_phone(phones, id, first), id, second) == with_phone(phones, id, second),
    decreases phones.len(),
{
    let once = with_phone(phones, id, first);
    if phones.len() == 0 {
        assert(once.skip(1) =~= Seq::empty());
        assert(with_phone(once, id, second) =~= seq![(id, second)]);
    } else {
        let rest = phones.skip(1);
        if phones[0].0 == id {
            assert(once.skip(1) =~= rest);
        } else {
            allowing_twice_updates_the_name(rest, id, first, second);
            assert(once.skip(1) =~= with_phone(rest, id, first));
        }
    }
}

/// Whether no id is listed twice.
pub open spec fn no_phone_twice(phones: Seq<(Seq<char>, Seq<char>)>) -> bool {
    forall|i: int, j: int|
        0 <= i < j < phones.len() ==> (#[trigger] phones[i]).0 != (#[trigger] phones[j]).0
}

/// Allowing a phone never lists an id twice.
pub proof fn allowing_lists_no_phone_twice(
    phones: Seq<(Seq<char>, Seq<char>)>,
    id: Seq<char>,
    name: Seq<char>,
)
    requires
        no_phone_twice(phones),
    ensures
        no_phone_twice(with_phone(phones, id, name)),
{
    if listed(phones, id) {
        let i = choose|i: int| 0 <= i < phones.len() && (#[trigger] phones[i]).0 == id;
        assert forall|j: int| 0 <= j < i implies (#[trigger] phones[j]).0 != id by {
            assert(phones[j].0 != phones[i].0);
        }
        first_gets_the_name(phones, id, name, i);
    } else {
        assert forall|j: int| 0 <= j < phones.len() implies (#[trigger] phones[j]).0 != id by {}
        unknown_goes_last(phones, id, name);
    }
}

/// A place where the settings may live.
#[derive(Debug, Clone, Copy, PartialEq, Eq, Structural)]
pub enum Place {
    /// Next to the binary.
    Portable,
    /// In the user's config directory.
    User,
    /// In the working directory, under the bare file name.
    Working,
}

/// What is known of the places so far. `None` where nobody has looked yet.
#[derive(Debug, Clone, Copy, PartialEq, Eq, Structural)]
pub struct Places {
    /// Whether it is known where the binary is.
    pub has_portable: bool,
    pub portable_exists: Option<bool>,
    /// Whether it is known where the user's config directory is.
    pub has_user: bool,
    pub user_exists: Option<bool>,
    /// Whether a file can be created next to the binary.
    pub portable_writable: Option<bool>,
}

/// What to do to find the settings.
#[derive(Debug, Clone, Copy, PartialEq, Eq, Structural)]
pub enum Search {
    /// See whether the file is at this place.
    LookAt(Place),
    /// Try to write next to the binary.
    Probe,
    /// Use the file at this place.
    Use(Place),
}

impl Config {
    /// Where the settings live, as far as that is known: an existing file next to the binary
    /// wins, then an existing one in the user's config directory; where there is neither, next
    /// to the binary if that is writable, else in the user's config directory.
    pub open spec fn place(places: Places) -> Search {
        if places.has_portable && places.portable_exists is None {
            Search::LookAt(Place::Portable)
        } else if places.has_portable && places.portable_exists == Some(true) {
            Search::Use(Place::Portable)
        } else if places.has_user && places.user_exists is None {
            Search::LookAt(Place::User)
        } else if places.has_user && places.user_exists == Some(true) {
            Search::Use(Place::User)
        } else if places.has_portable && places.portable_writable is None {
            Search::Probe
        } else if places.has_portable && places.portable_writable == Some(true) {
            Search::Use(Place::Portable)
        } else if places.has_user {
            Search::Use(Place::User)
        } else {
            Search::Use(Place::Working)
        }
    }

    /// The next step of the search for the settings. Nothing is looked at that does not matter:
    /// the probe writes a file, so it comes last.
    pub fn path(places: &Places) -> (step: Search)
        ensures
            step == Config::place(*places),
    {
        if places.has_portable {
            match places.portable_exists {
                None => {
                    return Search::LookAt(Place::Portable);
                },
                Some(true) => {
                    return Search::Use(Place::Portable);
                },
                Some(false) => {},
            }
        }
        if places.has_user {
            match places.user_exists {
                None => {
                    return Search::LookAt(Place::User);
                },
                Some(true) => {
                    return Search::Use(Place::User);
                },
                Some(false) => {},
            }
        }
        if places.has_portable {
            match places.portable_writable {
                None => {
                    return Search::Probe;
                },
                Some(true) => {
                    return Search::Use(Place::Portable);
                },
                Some(false) => {},
            }
        }
        if places.has_user {
            Search::Use(Place::User)
        } else {
            Search::Use(Place::Working)
        }
    }
}

/// A file that exists wins over any place where one could be created.
pub proof fn existing_settings_win(places: Places)
    requires
        places.has_portable ==> places.portable_exists is Some,
    ensures
        places.has_portable && places.portable_exists == Some(true) ==> Config::place(places)
            == Search::Use(Place::Portable),
        !(places.has_portable && places.portable_exists == Some(true)) && places.has_user
            && places.user_exists == Some(true) ==> Config::place(places) == Search::Use(
            Place::User,
        ),
{
}

/// Nothing is written to find the settings while a file of them exists.
pub proof fn no_probe_beside_existing_settings(places: Places)
    requires
        Config::place(places) == Search::Probe,
    ensures
        places.has_portable,
        places.portable_exists == Some(false),
        places.has_user ==> places.user_exists == Some(false),
{
}

/// Once everything has been looked at, the search is over.
pub proof fn the_search_ends(places: Places)
    requires
        places.has_portable ==> places.portable_exists is Some,
        places.has_user ==> places.user_exists is Some,
        places.has_portable ==> places.portable_writable is Some,
    ensures
        Config::place(places) is Use,
{
}

/// The systems that keep their users' settings in different places.
#[derive(Debug, Clone, Copy, PartialEq, Eq, Structural)]
pub enum System {
    Windows,
    MacOs,
    Other,
}

/// The environment variable that names the base of the user's config directory, and the folder
/// below it.
pub open spec fn user_folder(system: System, has_xdg: bool) -> (Seq<char>, Seq<char>) {
    match system {
        System::Windows => ("APPDATA"@, "Nearscreen"@),
        System::MacOs => ("HOME"@, "Library/Application Support/Nearscreen"@),
        System::Other => if has_xdg {
            ("XDG_CONFIG_HOME"@, "nearscreen"@)
        } else {
            ("HOME"@, ".config/nearscreen"@)
        },
    }
}

/// The environment variable that names the base of the user's config directory, and the folder
/// below it. `has_xdg` says whether `XDG_CONFIG_HOME` is set.
pub fn user_path(system: System, has_xdg: bool) -> (base: (&'static str, &'static str))
    ensures
        (base.0@, base.1@) == user_folder(system, has_xdg),
{
    match system {
        System::Windows => ("APPDATA", "Nearscreen"),
        System::MacOs => ("HOME", "Library/Application Support/Nearscreen"),
        System::Other => if has_xdg {
            ("XDG_CONFIG_HOME", "nearscreen")
        } else {
            ("HOME", ".config/nearscreen")
        },
    }
}

/// A receiver that was never set up listens on port 9913, knows no phone, does not start with the
/// computer, and announces itself on every network.
pub proof fn defaults_are_plain(config: Config)
    ensures
        config.is_default() <==> config.port == 9913 && config.allowed_devices@.len() == 0
            && !config.start_at_login && config.preferred_interface is None,
        FILE_NAME@ == "nearscreen-receiver.json"@,
{
}

/// What the file holds is what the receiver starts with; without a file, or with one that is
/// unusable, it starts as if it was never set up. Only a file that is there can be unusable.
pub proof fn broken_settings_keep_nobody_from_starting(file: SettingsFile, config: Config)
    requires
        config.starts_from(file.content()),
    ensures
        file matches SettingsFile::Holds(stored) ==> config == stored,
        !(file is Holds) ==> config.is_default(),
        file.content() is Err <==> file is Unreadable || file is Garbled,
        file.content() == Err::<Option<Config>, _>(SettingsError::Read) <==> file is Unreadable,
        file is Absent ==> file.content() == Ok::<_, SettingsError>(None::<Config>),
{
}

/// What a person is told of a settings file that is unusable.
pub proof fn errors_say_what_failed()
    ensures
        SettingsError::Read.text() == "cannot read the settings file"@,
        SettingsError::Parse.text() == "cannot parse the settings file"@,
{
}

/// Settings that say the same agree in everything.
pub proof fn same_settings_agree(a: Config, b: Config, enabled: bool)
    ensures
        a.same_as(b) <==> a.port == b.port && a.allowed_devices@ == b.allowed_devices@
            && a.start_at_login == b.start_at_login && a.preferred_interface
            == b.preferred_interface,
        a.starting_at_login(enabled).start_at_login == enabled,
        a.starting_at_login(enabled).port == a.port,
        a.starting_at_login(enabled).allowed_devices == a.allowed_devices,
        a.starting_at_login(enabled).preferred_interface == a.preferred_interface,
{
}

/// A phone is known just where an entry has its id, and a phone without an id never is.
pub proof fn known_phones_have_an_entry(config: Config, id: Seq<char>)
    ensures
        config.knows(id) <==> id.len() > 0 && exists|i: int|
            0 <= i < config.allowed_devices@.len() && (#[trigger] config.allowed_devices@[i]).id@
                == id,
{
    let list = config.phones();
    if config.knows(id) {
        let i = choose|i: int| 0 <= i < list.len() && (#[trigger] list[i]).0 == id;
        assert(config.allowed_devices@[i].id@ == id);
    }
    if exists|i: int|
        0 <= i < config.allowed_devices@.len() && (#[trigger] config.allowed_devices@[i]).id@
            == id {
        let i = choose|i: int|
            0 <= i < config.allowed_devices@.len() && (#[trigger] config.allowed_devices@[i]).id@
                == id;
        assert(list[i].0 == id);
    }
}

/// Where the settings live once everything was looked at: next to the binary where a file is there,
/// or where one can be and the user has none; in the user's own directory otherwise; and in the
/// working directory only where there is no other.
pub proof fn settings_live_in_one_place(places: Places)
    requires
        places.has_portable ==> places.portable_exists is Some,
        places.has_user ==> places.user_exists is Some,
        places.has_portable ==> places.portable_writable is Some,
    ensures
        ({
            let beside = places.has_portable && places.portable_exists == Some(true);
            let own = places.has_user && places.user_exists == Some(true);
            let room = places.has_portable && places.portable_writable == Some(true);
            &&& Config::place(places) == Search::Use(Place::Portable) <==> beside || (room && !own)
            &&& Config::place(places) == Search::Use(Place::User) <==> !beside && places.has_user
                && (own || !room)
            &&& Config::place(places) == Search::Use(Place::Working) <==> !beside && !room
                && !places.has_user
        }),
{
}

/// The places are looked at in turn, each only where it is known and was not looked at before: next
/// to the binary, then the user's own directory where nothing is beside the binary, and only then
/// is anything written.
pub proof fn places_are_looked_at_in_turn(places: Places)
    ensures
        ({
            let not_beside = !places.has_portable || (places.portable_exists is Some
                && !places.portable_exists->0);
            let not_own = !places.has_user || (places.user_exists is Some
                && !places.user_exists->0);
            &&& Config::place(places) == Search::LookAt(Place::Portable) <==> places.has_portable
                && places.portable_exists is None
            &&& Config::place(places) == Search::LookAt(Place::User) <==> not_beside
                && places.has_user && places.user_exists is None
            &&& Config::place(places) == Search::Probe <==> not_beside && not_own
                && places.has_portable && places.portable_writable is None
            &&& Config::place(places) != Search::LookAt(Place::Working)
        }),
{
}

/// Where each system keeps its users' settings.
pub proof fn systems_keep_settings_in_their_own_way(has_xdg: bool)
    ensures
        user_folder(System::Windows, has_xdg) == ("APPDATA"@, "Nearscreen"@),
        user_folder(System::MacOs, has_xdg) == (
            "HOME"@,
            "Library/Application Support/Nearscreen"@,
        ),
        user_folder(System::Other, true) == ("XDG_CONFIG_HOME"@, "nearscreen"@),
        user_folder(System::Other, false) == ("HOME"@, ".config/nearscreen"@),
{
}

} // verus!
