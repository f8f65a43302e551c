//! The screen before a phone arrives: who this computer is, where it is on the network, and a QR
//! code that sets a phone up without anyone typing an address, which is what saves the day on a
//! network that blocks discovery.

use vstd::prelude::*;
use vstd::utf8::is_ascii_chars;

use crate::net::address::{is_address_char, Address};
use crate::text::{decimal, decimal_text, digit, same_text};

verus! {

/// What stands where an address would.
pub const NO_ADDRESS: &'static str = "no network address yet";

/// A QR code and the link it carries.
#[derive(Debug)]
pub struct Code {
    pub url: String,
    /// Modules per side.
    pub size: usize,
    /// Whether a module is dark, row by row.
    pub dark: Vec<bool>,
}

impl Code {
    /// Whether the code has all of its modules.
    pub open spec fn whole(self) -> bool {
        self.dark@.len() == self.size * self.size
    }

    /// Whether the module at a row and column is dark.
    pub open spec fn module(self, row: int, column: int) -> bool {
        self.dark@[row * self.size + column]
    }

    /// The code of a link, given its modules per side and which of them are dark, where it has a
    /// code.
    pub fn of(url: String, modules: Option<(usize, Vec<bool>)>) -> (code: Option<Code>)
        ensures
            code == match modules {
                Some((size, dark)) => Some(Code { url, size, dark }),
                None => None::<Code>,
            },
    {
        match modules {
            Some((size, dark)) => Some(Code { url, size, dark }),
            None => None,
        }
    }

    /// Whether the module at a row and column is dark.
    pub fn is_dark(&self, row: usize, column: usize) -> (dark: bool)
        requires
            self.whole(),
            row < self.size,
            column < self.size,
        ensures
            dark == self.module(row as int, column as int),
    {
        proof {
            assert(row * self.size + column < self.size * self.size && 0 <= row
                * self.size) by (nonlinear_arith)
                requires
                    row < self.size,
                    column < self.size,
            ;
        }
        let all: usize = self.dark.len();
        assert(row * self.size <= all);
        self.dark[row * self.size + column]
    }
}

/// The QR code of some text: modules per side, and whether each is dark, row by row; `None` where
/// no code can hold the text.
pub uninterp spec fn qr_code(text: Seq<char>) -> Option<(usize, Seq<bool>)>;

/// `qrcode::QrCode::new`, `width` and `to_colors`: the QR code of some ASCII text has as many
/// modules in each direction as its width says. Which of them are dark, and which texts are too
/// long, is left to that crate.
#[verifier::external_body]
fn encode_qr(text: &str) -> (code: Option<(usize, Vec<bool>)>)
    requires
        is_ascii_chars(text@),
    ensures
        qr_code(text@) == match code {
            Some((size, dark)) => Some((size, dark@)),
            None => None,
        },
        code matches Some((size, dark)) ==> dark@.len() == size * size,
{
    qrcode::QrCode::new(text.as_bytes()).ok().map(
        |code|
            (
                code.width(),
                code.to_colors().into_iter().map(|module| module == qrcode::Color::Dark).collect(),
            ),
    )
}

/// The link that points the app at this receiver.
pub open spec fn link(address: Seq<char>, port: u16) -> Seq<char> {
    "nearscreen://broadcast?host="@ + address + "&port="@ + decimal_text(port as nat)
}

/// What the waiting screen knows.
#[derive(Debug)]
pub struct Waiting {
    name: String,
    addresses: Vec<Address>,
    port: u16,
    /// Which address the QR code points at, when there are several.
    chosen: usize,
    code: Option<Code>,
}

impl Waiting {
    #[verifier::type_invariant]
    spec fn inv(self) -> bool {
        &&& self.chosen == 0 || self.chosen < self.addresses@.len()
        &&& self.code matches Some(code) ==> {
            &&& code.whole()
            &&& self.link() == Some(code.url@)
            &&& qr_code(code.url@) == Some((code.size, code.dark@))
        }
    }

    /// What this computer is called.
    pub closed spec fn called(self) -> Seq<char> {
        self.name@
    }

    /// The addresses a phone could reach this computer on.
    pub closed spec fn all_addresses(self) -> Seq<Address> {
        self.addresses@
    }

    pub closed spec fn listening_on(self) -> u16 {
        self.port
    }

    /// Which address is offered.
    pub closed spec fn position(self) -> int {
        self.chosen as int
    }

    /// The QR code, where there is one.
    pub closed spec fn shown(self) -> Option<Code> {
        self.code
    }

    /// The address that is offered.
    pub open spec fn offered(self) -> Option<Address> {
        if self.position() < self.all_addresses().len() {
            Some(self.all_addresses()[self.position()])
        } else {
            None
        }
    }

    /// The link that points the app at the address that is offered.
    pub open spec fn link(self) -> Option<Seq<char>> {
        match self.offered() {
            Some(address) => Some(link(address.written(), self.listening_on())),
            None => None,
        }
    }

    /// Whether the QR code of a link is shown, where there is a link and it has one.
    pub open spec fn shows_code_of(self, link: Option<Seq<char>>) -> bool {
        match link {
            None => self.shown() is None,
            Some(url) => match qr_code(url) {
                Some((size, dark)) => self.shown() matches Some(code) && code.url@ == url
                    && code.size == size && code.dark@ == dark && code.whole(),
                None => self.shown() is None,
            },
        }
    }

    /// Whether this offers the next address, where there is another one.
    pub open spec fn is_next_of(self, before: Waiting) -> bool {
        let count = before.all_addresses().len() as int;
        &&& self.same_place(before)
        &&& count > 1 ==> {
            &&& self.position() == stepped(before.position(), 1, count)
            &&& self.shown() is None
        }
        &&& count <= 1 ==> {
            &&& self.position() == before.position()
            &&& self.shown() == before.shown()
        }
    }

    /// Whether everything but the position and the code is the same.
    pub open spec fn same_place(self, other: Waiting) -> bool {
        &&& self.called() == other.called()
        &&& self.all_addresses() == other.all_addresses()
        &&& self.listening_on() == other.listening_on()
    }

    pub fn new(name: String, addresses: Vec<Address>, port: u16) -> (waiting: Self)
        ensures
            waiting.called() == name@,
            waiting.all_addresses() == addresses@,
            waiting.listening_on() == port,
            waiting.position() == 0,
            waiting.shown() is None,
    {
        Self { name, addresses, port, chosen: 0, code: None }
    }

    /// What this computer is called.
    pub fn name(&self) -> (name: String)
        ensures
            name@ == self.called(),
    {
        self.name.clone()
    }

    pub fn address(&self) -> (address: Option<Address>)
        ensures
            address == self.offered(),
    {
        if self.chosen < self.addresses.len() {
            Some(self.addresses[self.chosen].clone())
        } else {
            None
        }
    }

    /// Moves to the next address; a computer on several networks needs the one the phone can
    /// actually reach.
    pub fn next_address(&mut self)
        ensures
            final(self).is_next_of(*old(self)),
    {
        proof {
            use_type_invariant(&*self);
        }
        let n: usize = self.addresses.len();
        proof {
            if self.chosen + 1 < n {
                vstd::arithmetic::div_mod::lemma_small_mod((self.chosen + 1) as nat, n as nat);
            } else if n > 0 {
                vstd::arithmetic::div_mod::lemma_mod_self_0(n as int);
            }
        }
        if n > 1 {
            self.code = None;
            self.chosen = if self.chosen + 1 < n {
                self.chosen + 1
            } else {
                0
            };
        }
    }

    /// The link the QR code carries: opening it on the phone points the app straight at this
    /// receiver.
    pub fn url(&self) -> (url: Option<String>)
        ensures
            match url {
                Some(url) => self.link() == Some(url@) && is_ascii_chars(url@),
                None => self.link() is None,
            },
    {
        let address = match self.address() {
            Some(address) => address,
            None => {
                return None;
            },
        };
        let host = address.text();
        let port = decimal(self.port as u64);
        let mut url = "nearscreen://broadcast?host=".to_owned();
        url.append(host.as_str());
        url.append("&port=");
        url.append(port.as_str());
        proof {
            reveal_strlit("nearscreen://broadcast?host=");
            reveal_strlit("&port=");
            decimal_is_ascii(self.port as nat);
            assert forall|i: int| 0 <= i < url@.len() implies '\0' <= #[trigger] url@[i]
                <= '\u{7f}' by {
                let head = "nearscreen://broadcast?host="@;
                let middle = "&port="@;
                if i < head.len() {
                    assert(url@[i] == head[i]);
                } else if i < head.len() + host@.len() {
                    assert(url@[i] == host@[i - head.len()]);
                    assert(is_address_char(host@[i - head.len()]));
                } else if i < head.len() + host@.len() + middle.len() {
                    assert(url@[i] == middle[i - head.len() - host@.len()]);
                } else {
                    assert(url@[i] == port@[i - head.len() - host@.len() - middle.len()]);
                }
            }
        }
        Some(url)
    }

    /// The line that says where this computer is.
    pub open spec fn place(self) -> Seq<char> {
        match self.offered() {
            Some(address) => address.written() + " : "@ + decimal_text(self.listening_on() as nat),
            None => NO_ADDRESS@,
        }
    }

    /// The line that says where this computer is.
    pub fn address_line(&self) -> (line: String)
        ensures
            line@ == self.place(),
    {
        match self.address() {
            Some(address) => {
                let mut line = address.text();
                line.append(" : ");
                line.append(decimal(self.port as u64).as_str());
                line
            },
            None => NO_ADDRESS.to_owned(),
        }
    }

    /// Makes the QR code of the link that is current, unless it is there already.
    pub fn ensure_code(&mut self)
        ensures
            final(self).same_place(*old(self)),
            final(self).position() == old(self).position(),
            final(self).shows_code_of(old(self).link()),
            old(self).shown() is Some ==> final(self).shown() == old(self).shown(),
    {
        proof {
            use_type_invariant(&*self);
        }
        let url = match self.url() {
            Some(url) => url,
            None => {
                self.code = None;
                return;
            },
        };
        if let Some(code) = &self.code {
            if same_text(code.url.as_str(), url.as_str()) {
                return;
            }
        }
        let modules = encode_qr(url.as_str());
        self.code = Code::of(url, modules);
    }

    /// The QR code, where there is one: it is that of the current link.
    pub fn code(&self) -> (code: Option<&Code>)
        ensures
            match code {
                Some(code) => {
                    &&& self.shown() == Some(*code)
                    &&& self.link() == Some(code.url@)
                    &&& qr_code(code.url@) == Some((code.size, code.dark@))
                    &&& code.whole()
                },
                None => self.shown() is None,
            },
    {
        proof {
            use_type_invariant(self);
        }
        self.code.as_ref()
    }
}

proof fn decimal_is_ascii(n: nat)
    ensures
        forall|i: int| 0 <= i < decimal_text(n).len() ==> '0' <= #[trigger] decimal_text(n)[i]
            <= '9',
    decreases n,
{
    if n >= 10 {
        let head = decimal_text(n / 10);
        let last = digit(n % 10);
        decimal_is_ascii(n / 10);
        assert(decimal_text(n) == head.push(last));
        assert('0' <= last <= '9');
        assert forall|i: int| 0 <= i < decimal_text(n).len() implies '0'
            <= #[trigger] decimal_text(n)[i] <= '9' by {
            if i < head.len() {
                assert(decimal_text(n)[i] == head[i]);
            }
        }
    }
}

/// Every address comes up: from any of them, some number of steps leads to any other.
pub proof fn every_address_comes_up(from: int, to: int, count: int)
    requires
        0 <= from < count,
        0 <= to < count,
    ensures
        exists|steps: int| 0 <= steps < count && #[trigger] stepped(from, steps, count) == to,
{
    let steps = if from <= to {
        to - from
    } else {
        to - from + count
    };
    assert(stepped(from, steps, count) == to) by {
        if from > to {
            assert((to + count) % count == to) by (nonlinear_arith)
                requires
                    0 <= to < count,
            ;
        } else {
            assert(to % count == to) by (nonlinear_arith)
                requires
                    0 <= to < count,
            ;
        }
    }
}

/// Where so many steps lead.
pub open spec fn stepped(from: int, steps: int, count: int) -> int {
    (from + steps) % count
}

/// One step more is the next position, and it leads as far as one more in a row.
pub proof fn steps_add_up(from: int, steps: int, count: int)
    requires
        0 <= from < count,
        0 <= steps,
    ensures
        stepped(stepped(from, steps, count), 1, count) == stepped(from, steps + 1, count),
{
    vstd::arithmetic::div_mod::lemma_add_mod_noop(from + steps, 1, count);
    if count == 1 {
        vstd::arithmetic::div_mod::lemma_mod_bound(stepped(from, steps, count) + 1, count);
    } else {
        assert(1int % count == 1) by (nonlinear_arith)
            requires
                count > 1,
        ;
    }
}

/// The link names the address and the port, the way the app reads it.
pub proof fn links_name_address_and_port(address: Seq<char>, port: u16)
    ensures
        link(address, port) == "nearscreen://broadcast?host="@ + address + "&port="@ + decimal_text(
            port as nat,
        ),
        NO_ADDRESS@ == "no network address yet"@,
{
}

/// What the waiting screen says follows the address that is offered: the link and the line name
/// that one and no other, and without an address there is no link.
pub proof fn what_is_said_is_what_is_offered(waiting: Waiting)
    ensures
        waiting.offered() is Some <==> waiting.position() < waiting.all_addresses().len(),
        waiting.offered() matches Some(address) ==> {
            &&& address == waiting.all_addresses()[waiting.position()]
            &&& waiting.link() == Some(
                "nearscreen://broadcast?host="@ + address.written() + "&port="@ + decimal_text(
                    waiting.listening_on() as nat,
                ),
            )
            &&& waiting.place() == address.written() + " : "@ + decimal_text(
                waiting.listening_on() as nat,
            )
        },
        waiting.offered() is None ==> waiting.link() is None && waiting.place()
            == "no network address yet"@,
{
}

/// The next address is the one behind, and the first behind the last.
pub proof fn the_next_is_the_one_behind(from: int, count: int)
    requires
        0 <= from < count,
    ensures
        stepped(from, 1, count) == if from + 1 < count {
            from + 1
        } else {
            0
        },
{
    if from + 1 < count {
        vstd::arithmetic::div_mod::lemma_small_mod((from + 1) as nat, count as nat);
    } else {
        vstd::arithmetic::div_mod::lemma_mod_self_0(count);
    }
}

/// The next address offered is the one behind, or the first behind the last, and its code is still
/// to be made; a computer with one address goes on offering that one.
pub proof fn the_next_address_is_offered(before: Waiting, after: Waiting)
    requires
        after.is_next_of(before),
        0 <= before.position() < before.all_addresses().len(),
    ensures
        after.same_place(before),
        after.offered() is Some,
        after.offered()->0 == if before.position() + 1 < before.all_addresses().len() {
            before.all_addresses()[before.position() + 1]
        } else {
            before.all_addresses()[0]
        },
        before.all_addresses().len() > 1 ==> after.shown() is None,
        before.all_addresses().len() == 1 ==> after.shown() == before.shown(),
{
    the_next_is_the_one_behind(before.position(), before.all_addresses().len() as int);
}

/// The code that is shown is that of the link, where there is a link and it has a code: all of its
/// modules, row by row.
pub proof fn the_code_is_that_of_the_link(
    waiting: Waiting,
    url: Seq<char>,
    size: usize,
    dark: Seq<bool>,
    row: int,
    column: int,
)
    requires
        waiting.shows_code_of(Some(url)),
        qr_code(url) == Some((size, dark)),
    ensures
        waiting.shown() is Some,
        waiting.shown()->0.url@ == url,
        waiting.shown()->0.size == size,
        waiting.shown()->0.dark@.len() == size * size,
        waiting.shown()->0.module(row, column) == dark[row * size + column],
{
}

/// Two screens are in the same place where they agree in all but which address is offered.
pub proof fn the_place_is_name_addresses_and_port(a: Waiting, b: Waiting)
    ensures
        a.same_place(b) <==> a.called() == b.called() && a.all_addresses() == b.all_addresses()
            && a.listening_on() == b.listening_on(),
{
}

} // verus!
