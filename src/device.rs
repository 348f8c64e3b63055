//! The device handle: the sole owner of one raw device record, its logical
//! fields, and the lifecycle that creates, synchronises and removes the
//! interface behind it.
//!
//! The native calls are made by the caller. Each operation is split in two:
//! a request that says whether and with what the call may be made, and a
//! completion that takes what the call returned. Every completion that gives
//! up a raw record returns its address, which the caller then releases.
use vstd::prelude::*;
use crate::error::{create_outcome, create_status_result, status_result, WgError};
use crate::record::{
    blank_record, decode_key, decode_name, encode_name, encoded_name, key_text,
    lemma_name_round_trip, name_field, push_record, valid_name_bytes, DeviceFlags,
    DeviceRecord,
};
use crate::text::{c_content, find_nul, first_nul_at};
use vstd::string::*;
use vstd::utf8::{decode_utf8, encode_utf8, valid_utf8};

verus! {

/// Where a handle stands in the life of its interface.
#[derive(Debug, Clone, Copy, PartialEq, Eq, Structural)]
pub enum Lifecycle {
    /// No interface created yet.
    Unbound,
    /// The interface exists; no configuration fetched or pushed yet.
    Created,
    /// The logical fields mirror the last fetch or push.
    Synchronized,
    /// The logical fields were changed and not pushed yet.
    Modified,
    /// The interface was deleted.
    Removed,
}

/// The states in which the interface exists.
pub open spec fn is_live(s: Lifecycle) -> bool {
    s is Created || s is Synchronized || s is Modified
}

/// A raw device record handed over by the native library: its address and
/// a copy of its contents.
#[derive(Debug, Clone, Copy, PartialEq, Eq)]
pub struct RawDevice {
    pub addr: usize,
    pub record: DeviceRecord,
}

/// The model of a handle.
pub struct DeviceView {
    pub state: Lifecycle,
    /// Name field of the interface the handle stands for.
    pub interface: [u8; 16],
    /// The logical fields.
    pub config: DeviceRecord,
    /// Address of the raw record the handle owns.
    pub raw: Option<usize>,
    /// How many raw records the handle has taken ownership of.
    pub adopted: nat,
    /// How many raw records the handle has handed back for release.
    pub released: nat,
}

/// 1 when `raw` holds an address, else 0.
pub open spec fn owned_count(raw: Option<usize>) -> nat {
    if raw is Some {
        1
    } else {
        0
    }
}

/// After a successful create of the interface `name`.
pub open spec fn after_create(v: DeviceView, name: [u8; 16]) -> DeviceView {
    DeviceView { state: Lifecycle::Created, interface: name, config: blank_record(name), ..v }
}

/// After the raw record `fetched` replaced the one owned, if any.
pub open spec fn after_refresh(v: DeviceView, fetched: RawDevice) -> DeviceView {
    DeviceView {
        state: Lifecycle::Synchronized,
        config: fetched.record,
        raw: Some(fetched.addr),
        adopted: v.adopted + 1,
        released: v.released + owned_count(v.raw),
        ..v
    }
}

/// After a successful push of the record built from the logical fields,
/// now owned at `addr`.
pub open spec fn after_push(v: DeviceView, addr: usize) -> DeviceView {
    DeviceView {
        state: Lifecycle::Synchronized,
        config: push_record(v.config),
        raw: Some(addr),
        adopted: v.adopted + 1,
        released: v.released + owned_count(v.raw),
        ..v
    }
}

/// After the firewall mark was changed locally.
pub open spec fn after_set_fwmark(v: DeviceView, fwmark: u32) -> DeviceView {
    DeviceView {
        state: Lifecycle::Modified,
        config: DeviceRecord { fwmark, ..v.config },
        ..v
    }
}

/// After the flags were changed locally.
pub open spec fn after_set_flags(v: DeviceView, flags: DeviceFlags) -> DeviceView {
    DeviceView { state: Lifecycle::Modified, config: DeviceRecord { flags, ..v.config }, ..v }
}

/// After the raw record was given up for release.
pub open spec fn after_release(v: DeviceView) -> DeviceView {
    DeviceView {
        state: if v.state is Synchronized || v.state is Modified {
            Lifecycle::Created
        } else {
            v.state
        },
        raw: None,
        released: v.released + owned_count(v.raw),
        ..v
    }
}

/// After a successful delete of the interface.
pub open spec fn after_remove(v: DeviceView) -> DeviceView {
    DeviceView { state: Lifecycle::Removed, ..after_release(v) }
}

/// An exclusively owning handle on one raw device record. It cannot be
/// copied, and hands every record it owned back exactly once.
pub struct WireguardDevice {
    state: Lifecycle,
    interface: [u8; 16],
    config: DeviceRecord,
    raw: Option<usize>,
    adopted: Ghost<nat>,
    released: Ghost<nat>,
}

impl View for WireguardDevice {
    type V = DeviceView;

    closed spec fn view(&self) -> DeviceView {
        DeviceView {
            state: self.state,
            interface: self.interface,
            config: self.config,
            raw: self.raw,
            adopted: self.adopted@,
            released: self.released@,
        }
    }
}

impl WireguardDevice {
    #[verifier::type_invariant]
    spec fn inv(self) -> bool {
        &&& (self.raw is Some <==> (self.state is Synchronized || self.state is Modified))
        &&& self.adopted@ == self.released@ + owned_count(self.raw)
    }

    fn from_view(v: Ghost<DeviceView>, state: Lifecycle, interface: [u8; 16], config: DeviceRecord,
        raw: Option<usize>) -> (r: WireguardDevice)
        requires
            v@.state == state,
            v@.interface == interface,
            v@.config == config,
            v@.raw == raw,
            raw is Some <==> (state is Synchronized || state is Modified),
            v@.adopted == v@.released + owned_count(raw),
        ensures
            r@ == v@,
    {
        WireguardDevice {
            state,
            interface,
            config,
            raw,
            adopted: Ghost(v@.adopted),
            released: Ghost(v@.released),
        }
    }

    /// A handle for an interface not created yet.
    pub fn unbound() -> (r: WireguardDevice)
        ensures
            r@.state == Lifecycle::Unbound,
            r@.raw is None,
            r@.adopted == 0,
            r@.released == 0,
    {
        let name = [0u8; 16];
        WireguardDevice {
            state: Lifecycle::Unbound,
            interface: name,
            config: DeviceRecord::blank(name),
            raw: None,
            adopted: Ghost(0),
            released: Ghost(0),
        }
    }

    /// Takes sole ownership of a raw record returned by a fetch. The caller
    /// must not release `raw.addr` itself.
    pub fn new(raw: RawDevice) -> (r: WireguardDevice)
        ensures
            r@.state == Lifecycle::Synchronized,
            r@.interface == raw.record.name,
            r@.config == raw.record,
            r@.raw == Some(raw.addr),
            r@.adopted == 1,
            r@.released == 0,
    {
        WireguardDevice {
            state: Lifecycle::Synchronized,
            interface: raw.record.name,
            config: raw.record,
            raw: Some(raw.addr),
            adopted: Ghost(1),
            released: Ghost(0),
        }
    }

    /// The lifecycle state.
    pub fn state(&self) -> (r: Lifecycle)
        ensures
            r == self@.state,
    {
        self.state
    }

    /// Address of the raw record owned, if any.
    pub fn raw_device_ptr(&self) -> (r: Option<usize>)
        ensures
            r == self@.raw,
    {
        self.raw
    }

    /// Request to create the interface `name`: the name field to hand to the
    /// native call. Only an unbound handle may create.
    pub fn create_request(&self, name: &str) -> (r: Result<[u8; 16], WgError>)
        ensures
            !(self@.state is Unbound) ==> r == Err::<[u8; 16], WgError>(WgError::InvalidState),
            self@.state is Unbound ==> match r {
                Ok(f) => encoded_name(name.spec_bytes()) == Ok::<Seq<u8>, WgError>(f@),
                Err(e) => encoded_name(name.spec_bytes()) == Err::<Seq<u8>, WgError>(e),
            },
    {
        if self.state != Lifecycle::Unbound {
            return Err(WgError::InvalidState);
        }
        encode_name(name)
    }

    /// Completes the creation of the interface `name` with the native
    /// status. A name that is taken gives [`WgError::AlreadyExists`].
    pub fn create_interface(&mut self, name: [u8; 16], status: i32, last_error: i32) -> (r: Result<
        (),
        WgError,
    >)
        requires
            old(self)@.state is Unbound,
        ensures
            r == create_outcome(status, last_error),
            r is Ok ==> final(self)@ == after_create(old(self)@, name),
            r is Err ==> final(self)@ == old(self)@,
    {
        proof {
            use_type_invariant(&*self);
        }
        let r = create_status_result(status, last_error);
        if r.is_ok() {
            *self = WireguardDevice {
                state: Lifecycle::Created,
                interface: name,
                config: DeviceRecord::blank(name),
                raw: None,
                adopted: Ghost(self.adopted@),
                released: Ghost(self.released@),
            };
        }
        r
    }

    /// Request for a fetch or a delete: the interface's name field, while
    /// the interface exists. A name field without NUL terminator is no C
    /// string and is refused.
    pub fn interface_name(&self) -> (r: Result<[u8; 16], WgError>)
        ensures
            is_live(self@.state) && c_content(self@.interface@) is Some ==> r == Ok::<
                [u8; 16],
                WgError,
            >(self@.interface),
            is_live(self@.state) && c_content(self@.interface@) is None ==> r == Err::<
                [u8; 16],
                WgError,
            >(WgError::NameTooLong),
            !is_live(self@.state) ==> r == Err::<[u8; 16], WgError>(WgError::InvalidState),
    {
        match self.state {
            Lifecycle::Created | Lifecycle::Synchronized | Lifecycle::Modified => {},
            _ => {
                return Err(WgError::InvalidState);
            },
        }
        let field = self.interface.as_slice();
        assert(field@ == self@.interface@);
        match find_nul(field) {
            None => {
                proof {
                    if exists|k: int| first_nul_at(field@, k) {
                        let k = choose|k: int| first_nul_at(field@, k);
                        assert(field@[k] == 0);
                    }
                }
                Err(WgError::NameTooLong)
            },
            Some(k) => {
                assert(first_nul_at(field@, k as int));
                Ok(self.interface)
            },
        }
    }

    /// Completes a refresh with what the fetch returned: a raw record, or
    /// its failure (see [`crate::error::fetch_result`]). On success the fetched record replaces
    /// the logical fields, local changes included, and the record owned
    /// before is returned for release. On failure nothing changes.
    pub fn refresh_device(&mut self, fetched: Result<RawDevice, WgError>) -> (r: Result<
        Option<usize>,
        WgError,
    >)
        requires
            is_live(old(self)@.state),
        ensures
            fetched matches Ok(f) ==> r == Ok::<Option<usize>, WgError>(old(self)@.raw)
                && final(self)@ == after_refresh(old(self)@, f),
            fetched matches Err(e) ==> r == Err::<Option<usize>, WgError>(e)
                && final(self)@ == old(self)@,
    {
        proof {
            use_type_invariant(&*self);
        }
        match fetched {
            Err(e) => Err(e),
            Ok(f) => {
                let previous = self.raw;
                let ghost v = after_refresh(self@, f);
                *self = Self::from_view(Ghost(v), Lifecycle::Synchronized, self.interface,
                    f.record, Some(f.addr));
                Ok(previous)
            },
        }
    }

    /// Request for a push: a fresh record built from the logical fields.
    /// Only a handle that owns a fetched or pushed record may push. A name
    /// field without NUL terminator does not fit and is refused rather than
    /// pushed.
    pub fn update_request(&self) -> (r: Result<DeviceRecord, WgError>)
        ensures
            !is_live(self@.state) ==> r == Err::<DeviceRecord, WgError>(WgError::InvalidState),
            is_live(self@.state) && self@.raw is None ==> r == Err::<DeviceRecord, WgError>(
                WgError::NotBound,
            ),
            self@.raw is Some && c_content(self@.config.name@) is None ==> r == Err::<
                DeviceRecord,
                WgError,
            >(WgError::NameTooLong),
            self@.raw is Some && c_content(self@.config.name@) is Some ==> r == Ok::<
                DeviceRecord,
                WgError,
            >(push_record(self@.config)),
    {
        proof {
            use_type_invariant(self);
        }
        match self.state {
            Lifecycle::Created | Lifecycle::Synchronized | Lifecycle::Modified => {},
            _ => {
                return Err(WgError::InvalidState);
            },
        }
        if self.raw.is_none() {
            return Err(WgError::NotBound);
        }
        match self.config.for_push() {
            None => Err(WgError::NameTooLong),
            Some(rec) => Ok(rec),
        }
    }

    /// Completes a push of the record from [`Self::update_request`], now at
    /// `addr`, with the native status. On success the handle owns the pushed
    /// record and returns the one owned before for release. On failure
    /// nothing changes, and the pushed record stays the caller's.
    pub fn update_device(&mut self, addr: usize, status: i32, last_error: i32) -> (r: Result<
        Option<usize>,
        WgError,
    >)
        requires
            old(self)@.raw is Some,
            c_content(old(self)@.config.name@) is Some,
        ensures
            status == 0 ==> r == Ok::<Option<usize>, WgError>(old(self)@.raw) && final(self)@
                == after_push(old(self)@, addr),
            status != 0 ==> r == Err::<Option<usize>, WgError>(WgError::Os(last_error))
                && final(self)@ == old(self)@,
    {
        proof {
            use_type_invariant(&*self);
        }
        if let Err(e) = status_result(status, last_error) {
            return Err(e);
        }
        match self.config.for_push() {
            None => Err(WgError::NameTooLong),
            Some(pushed) => {
                let previous = self.raw;
                let ghost v = after_push(self@, addr);
                *self = Self::from_view(Ghost(v), Lifecycle::Synchronized, self.interface,
                    pushed, Some(addr));
                Ok(previous)
            },
        }
    }

    /// Completes the removal of the interface with the native status of the
    /// delete. On success the handle is removed and returns its raw record
    /// for release; on failure nothing changes.
    pub fn remove_interface(&mut self, status: i32, last_error: i32) -> (r: Result<
        Option<usize>,
        WgError,
    >)
        requires
            is_live(old(self)@.state),
        ensures
            status == 0 ==> r == Ok::<Option<usize>, WgError>(old(self)@.raw) && final(self)@
                == after_remove(old(self)@),
            status != 0 ==> r == Err::<Option<usize>, WgError>(WgError::Os(last_error))
                && final(self)@ == old(self)@,
    {
        proof {
            use_type_invariant(&*self);
        }
        match status_result(status, last_error) {
            Err(e) => Err(e),
            Ok(()) => {
                let previous = self.raw;
                let ghost v = after_remove(self@);
                *self = Self::from_view(Ghost(v), Lifecycle::Removed, self.interface,
                    self.config, None);
                Ok(previous)
            },
        }
    }

    /// Gives up the raw record owned, returning its address for release.
    /// On a handle that owns none this does nothing and returns `None`, so
    /// releasing twice never releases a record twice. Afterwards every
    /// record the handle ever owned has been handed back exactly once.
    pub fn release(&mut self) -> (r: Option<usize>)
        ensures
            r == old(self)@.raw,
            final(self)@ == after_release(old(self)@),
            final(self)@.adopted == final(self)@.released,
    {
        proof {
            use_type_invariant(&*self);
        }
        let previous = self.raw;
        let state = match self.state {
            Lifecycle::Synchronized | Lifecycle::Modified => Lifecycle::Created,
            s => s,
        };
        let ghost v = after_release(self@);
        *self = Self::from_view(Ghost(v), state, self.interface, self.config, None);
        previous
    }

    /// Changes the firewall mark locally, to be pushed later.
    pub fn set_fwmark(&mut self, fwmark: u32) -> (r: Result<(), WgError>)
        ensures
            old(self)@.raw is Some ==> r is Ok && final(self)@ == after_set_fwmark(
                old(self)@,
                fwmark,
            ),
            old(self)@.raw is None ==> r == Err::<(), WgError>(WgError::NotBound) && final(self)@
                == old(self)@,
    {
        proof {
            use_type_invariant(&*self);
        }
        if self.raw.is_none() {
            return Err(WgError::NotBound);
        }
        let ghost v = after_set_fwmark(self@, fwmark);
        let config = DeviceRecord { fwmark, ..self.config };
        *self = Self::from_view(Ghost(v), Lifecycle::Modified, self.interface, config, self.raw);
        Ok(())
    }

    /// Changes the flags locally, to be pushed later.
    pub fn set_flags(&mut self, flags: DeviceFlags) -> (r: Result<(), WgError>)
        ensures
            old(self)@.raw is Some ==> r is Ok && final(self)@ == after_set_flags(
                old(self)@,
                flags,
            ),
            old(self)@.raw is None ==> r == Err::<(), WgError>(WgError::NotBound) && final(self)@
                == old(self)@,
    {
        proof {
            use_type_invariant(&*self);
        }
        if self.raw.is_none() {
            return Err(WgError::NotBound);
        }
        let ghost v = after_set_flags(self@, flags);
        let config = DeviceRecord { flags, ..self.config };
        *self = Self::from_view(Ghost(v), Lifecycle::Modified, self.interface, config, self.raw);
        Ok(())
    }

    /// The device name, read from the name field.
    pub fn name(&self) -> (r: Result<String, WgError>)
        ensures
            self@.raw is None ==> r == Err::<String, WgError>(WgError::NotBound),
            self@.raw is Some ==> (r is Ok <==> (c_content(self@.config.name@) matches Some(c)
                && valid_utf8(c))),
            r matches Ok(s) ==> s@ == decode_utf8(c_content(self@.config.name@)->Some_0),
            self@.raw is Some && r is Err ==> r == Err::<String, WgError>(WgError::Decode),
    {
        if self.raw.is_none() {
            return Err(WgError::NotBound);
        }
        decode_name(&self.config.name)
    }

    /// The device flags.
    pub fn flags(&self) -> (r: Result<DeviceFlags, WgError>)
        ensures
            self@.raw is None ==> r == Err::<DeviceFlags, WgError>(WgError::NotBound),
            self@.raw is Some ==> r == Ok::<DeviceFlags, WgError>(self@.config.flags),
    {
        if self.raw.is_none() {
            return Err(WgError::NotBound);
        }
        Ok(self.config.flags)
    }

    /// The firewall mark.
    pub fn fwmark(&self) -> (r: Result<u32, WgError>)
        ensures
            self@.raw is None ==> r == Err::<u32, WgError>(WgError::NotBound),
            self@.raw is Some ==> r == Ok::<u32, WgError>(self@.config.fwmark),
    {
        if self.raw.is_none() {
            return Err(WgError::NotBound);
        }
        Ok(self.config.fwmark)
    }

    /// The private key as text, when the field holds one (see [`key_text`]).
    pub fn private_key(&self) -> (r: Result<Option<String>, WgError>)
        ensures
            self@.raw is None ==> r == Err::<Option<String>, WgError>(WgError::NotBound),
            self@.raw is Some ==> match r {
                Ok(Some(s)) => key_text(self@.config.private_key@) == Ok::<
                    Option<Seq<char>>,
                    WgError,
                >(Some(s@)),
                Ok(None) => key_text(self@.config.private_key@) == Ok::<
                    Option<Seq<char>>,
                    WgError,
                >(None),
                Err(e) => key_text(self@.config.private_key@) == Err::<
                    Option<Seq<char>>,
                    WgError,
                >(e),
            },
    {
        if self.raw.is_none() {
            return Err(WgError::NotBound);
        }
        decode_key(&self.config.private_key)
    }

    /// The public key as text, when the field holds one (see [`key_text`]).
    pub fn public_key(&self) -> (r: Result<Option<String>, WgError>)
        ensures
            self@.raw is None ==> r == Err::<Option<String>, WgError>(WgError::NotBound),
            self@.raw is Some ==> match r {
                Ok(Some(s)) => key_text(self@.config.public_key@) == Ok::<
                    Option<Seq<char>>,
                    WgError,
                >(Some(s@)),
                Ok(None) => key_text(self@.config.public_key@) == Ok::<
                    Option<Seq<char>>,
                    WgError,
                >(None),
                Err(e) => key_text(self@.config.public_key@) == Err::<
                    Option<Seq<char>>,
                    WgError,
                >(e),
            },
    {
        if self.raw.is_none() {
            return Err(WgError::NotBound);
        }
        decode_key(&self.config.public_key)
    }
}

/// Releasing twice releases once: the second release hands nothing back
/// and changes nothing.
pub proof fn lemma_release_idempotent(v: DeviceView)
    ensures
        after_release(v).raw is None,
        after_release(after_release(v)) == after_release(v),
{
}

/// The last fetch wins: changing the firewall mark locally and then
/// refreshing leaves the handle as a refresh alone would, with the fetched
/// firewall mark.
pub proof fn lemma_refresh_discards_local_fwmark(v: DeviceView, fwmark: u32, fetched: RawDevice)
    ensures
        after_refresh(after_set_fwmark(v, fwmark), fetched) == after_refresh(v, fetched),
        after_refresh(after_set_fwmark(v, fwmark), fetched).config.fwmark == fetched.record.fwmark,
{
}

/// The same for the flags.
pub proof fn lemma_refresh_discards_local_flags(
    v: DeviceView,
    flags: DeviceFlags,
    fetched: RawDevice,
)
    ensures
        after_refresh(after_set_flags(v, flags), fetched) == after_refresh(v, fetched),
        after_refresh(after_set_flags(v, flags), fetched).config.flags == fetched.record.flags,
{
}

/// A name marshalled into the logical fields is read back unchanged from
/// the record that a push leaves the handle owning.
pub proof fn lemma_pushed_name_reads_back(v: DeviceView, name: Seq<char>, addr: usize)
    requires
        valid_name_bytes(encode_utf8(name)),
        v.config.name@ == name_field(encode_utf8(name)),
    ensures
        c_content(after_push(v, addr).config.name@) == Some(encode_utf8(name)),
        valid_utf8(encode_utf8(name)),
        decode_utf8(encode_utf8(name)) == name,
{
    lemma_name_round_trip(name);
}

} // verus!
