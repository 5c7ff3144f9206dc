use vstd::prelude::*;

verus! {

/// Port used for discovery when nothing else is configured; data goes to the
/// next port.
pub const DEFAULT_PORT: u16 = 3847;

/// A lowercase hexadecimal digit.
pub open spec fn is_lower_hex_digit(c: char) -> bool {
    ('0' <= c && c <= '9') || ('a' <= c && c <= 'f')
}

/// Positions of the hyphens in the hyphenated text form of a UUID.
pub open spec fn is_hyphen_position(i: int) -> bool {
    i == 8 || i == 13 || i == 18 || i == 23
}

/// The lowercase hyphenated text form of a UUID: 36 characters, hyphens at
/// positions 8, 13, 18 and 23, lowercase hexadecimal digits elsewhere.
pub open spec fn is_hyphenated_uuid(text: Seq<char>) -> bool {
    &&& text.len() == 36
    &&& forall|i: int|
        0 <= i < 36 ==> if is_hyphen_position(i) {
            text[i] == '-'
        } else {
            is_lower_hex_digit(#[trigger] text[i])
        }
}

/// The text form of a random (version 4, RFC 4122 variant) UUID.
pub open spec fn is_random_uuid_text(text: Seq<char>) -> bool {
    &&& is_hyphenated_uuid(text)
    &&& text[14] == '4'
    &&& (text[19] == '8' || text[19] == '9' || text[19] == 'a' || text[19] == 'b')
}

/// Calls `uuid::Uuid::new_v4` and converts the result with `to_string`. The
/// contract claims what the uuid crate's source shows: `new_v4` fixes the
/// version nibble to 4 and the variant bits to `10`, and the `Display` impl
/// writes the lowercase hyphenated form with no padding. Which UUID comes back
/// is random and is not stated. The crate panics when the operating system's
/// random source fails; nothing here can rule that out.
#[verifier::external_body]
fn new_random_uuid_text() -> (text: String)
    ensures
        is_random_uuid_text(text@),
{
    uuid::Uuid::new_v4().to_string()
}

/// What a session configuration holds.
pub struct SessionView {
    pub device_id: Seq<char>,
    pub port: u16,
    pub new_port: u16,
}

/// Identity and ports of this running instance: a random device identifier,
/// the discovery port in use, and the port chosen in the settings.
pub struct SessionConfig {
    device_id: String,
    port: u16,
    new_port: u16,
}

impl SessionConfig {
    #[verifier::type_invariant]
    spec fn random_id(self) -> bool {
        is_random_uuid_text(self.device_id@)
    }
}

impl View for SessionConfig {
    type V = SessionView;

    closed spec fn view(&self) -> SessionView {
        SessionView { device_id: self.device_id@, port: self.port, new_port: self.new_port }
    }
}

impl SessionConfig {
    /// A fresh random device identifier and the default port.
    pub fn new() -> (config: Self)
        ensures
            is_random_uuid_text(config@.device_id),
            config@.port == DEFAULT_PORT,
            config@.new_port == DEFAULT_PORT,
    {
        SessionConfig { device_id: new_random_uuid_text(), port: DEFAULT_PORT, new_port: DEFAULT_PORT }
    }

    /// The device identifier.
    pub fn device_id(&self) -> (id: &String)
        ensures
            id@ == self@.device_id,
            is_random_uuid_text(id@),
    {
        proof { use_type_invariant(self); }
        &self.device_id
    }

    /// The discovery port in use.
    pub fn port(&self) -> (port: u16)
        ensures
            port == self@.port,
    {
        self.port
    }

    /// The port chosen in the settings.
    pub fn new_port(&self) -> (port: u16)
        ensures
            port == self@.new_port,
    {
        self.new_port
    }

    /// Records the port chosen in the settings, without applying it.
    pub fn set_new_port(&mut self, port: u16)
        ensures
            final(self)@ == (SessionView { new_port: port, ..old(self)@ }),
    {
        proof { use_type_invariant(&*self); }
        self.new_port = port;
    }

    /// Applies the port chosen in the settings; returns whether it changed, in
    /// which case networking has to restart.
    pub fn commit_port_change(&mut self) -> (changed: bool)
        ensures
            changed == (old(self)@.new_port != old(self)@.port),
            final(self)@ == (SessionView { port: old(self)@.new_port, ..old(self)@ }),
    {
        proof { use_type_invariant(&*self); }
        if self.new_port != self.port {
            self.port = self.new_port;
            true
        } else {
            false
        }
    }

    /// After a port error, moves to the next port candidate and uses it;
    /// returns whether there was one. Past the last port nothing changes.
    pub fn advance_port(&mut self) -> (advanced: bool)
        ensures
            advanced == (old(self)@.new_port < 65535),
            advanced ==> final(self)@ == (SessionView {
                port: (old(self)@.new_port + 1) as u16,
                new_port: (old(self)@.new_port + 1) as u16,
                ..old(self)@
            }),
            !advanced ==> final(self)@ == old(self)@,
    {
        proof { use_type_invariant(&*self); }
        if self.new_port < 65535 {
            self.new_port = self.new_port + 1;
            self.port = self.new_port;
            true
        } else {
            false
        }
    }

    /// The first eight characters of the device identifier, as shown in the
    /// settings.
    pub fn short_id(&self) -> (short: &str)
        ensures
            short@ == self@.device_id.subrange(0, 8),
    {
        proof {
            use_type_invariant(self);
            assert forall|i: int| 0 <= i < self.device_id@.len() implies '\0' <= #[trigger] self.device_id@[i]
                <= '\u{7f}' by {
                if !is_hyphen_position(i) {
                    assert(is_lower_hex_digit(self.device_id@[i]));
                }
            }
        }
        self.device_id.as_str().substring_ascii(0, 8)
    }
}

} // verus!
