//! The vault behind its master password: unlocking, revealing a platform's
//! secret, storing a new one.
//!
//! The controller reads and writes no file. A caller reads the picture that
//! `locate` names and hands it to `reveal_secret`; it writes what `store` hands back,
//! the picture first and the registry document after it.

use vstd::prelude::*;
use vstd::utf8::{decode_utf8, encode_utf8, valid_utf8};
use crate::codec::{from_bytes, law_text_is_sentinel_free, law_text_round_trip, to_bytes};
use crate::document::{document_of, to_document};
use crate::embedder::{decode, embedded, encode, extracted, law_round_trip, CarrierImage};
use crate::error::VaultError;
use crate::json_text::json_pretty;
use crate::names::same_ignoring_case;
use crate::registry::{added, is_first_match, knows};
use crate::registry::{EntryView, RegistryView, VaultRegistry};

verus! {

/// Whether the master password has been given.
#[derive(Debug, Clone, Copy, PartialEq, Eq, Structural)]
pub enum LockState {
    Locked,
    Unlocked,
}

/// A registry and the lock on it. A controller starts locked; once unlocked it
/// stays so.
#[derive(Debug)]
pub struct VaultController {
    registry: VaultRegistry,
    state: LockState,
}

/// What `store` hands back for the caller to write: the picture that now
/// carries the secret, and the text of the registry document.
#[derive(Debug)]
pub struct StoreOutcome {
    pub picture: CarrierImage,
    pub document: String,
}

/// Why a secret cannot be stored, if it cannot: the vault is locked, the
/// platform's name is taken, or the secret has more bytes than the carrier has
/// pixels, in this order.
pub open spec fn store_refusal(
    state: LockState,
    entries: Seq<EntryView>,
    platform: Seq<char>,
    capacity: nat,
    secret: Seq<u8>,
) -> Option<VaultError> {
    if state == LockState::Locked {
        Some(VaultError::AuthenticationFailed)
    } else if knows(entries, platform) {
        Some(VaultError::DuplicatePlatform)
    } else if secret.len() > capacity {
        Some(
            VaultError::CapacityExceeded {
                required: secret.len() as usize,
                available: capacity as usize,
            },
        )
    } else {
        None
    }
}

impl VaultController {
    /// The registry.
    pub closed spec fn registry_view(&self) -> RegistryView {
        self.registry@
    }

    /// The state of the lock.
    pub closed spec fn lock(&self) -> LockState {
        self.state
    }

    /// A locked controller over `registry`.
    pub fn new(registry: VaultRegistry) -> (controller: VaultController)
        ensures
            controller.registry_view() == registry@,
            controller.lock() == LockState::Locked,
    {
        VaultController { registry, state: LockState::Locked }
    }

    /// The state of the lock.
    pub fn state(&self) -> (state: LockState)
        ensures
            state == self.lock(),
    {
        self.state
    }

    /// Whether the master password has been given.
    pub fn is_unlocked(&self) -> (open: bool)
        ensures
            open == (self.lock() == LockState::Unlocked),
    {
        self.state == LockState::Unlocked
    }

    /// The registry.
    pub fn registry(&self) -> (registry: &VaultRegistry)
        ensures
            registry@ == self.registry_view(),
    {
        &self.registry
    }

    /// Unlocks the vault with `password`, which matches the master password
    /// when the two differ in the case of ASCII letters at most. On a mismatch
    /// fails with `AuthenticationFailed` and leaves the lock as it was.
    pub fn unlock(&mut self, password: &str) -> (r: Result<(), VaultError>)
        ensures
            final(self).registry_view() == old(self).registry_view(),
            same_ignoring_case(old(self).registry_view().password, password@) ==> r == Ok::<
                (),
                VaultError,
            >(()) && final(self).lock() == LockState::Unlocked,
            !same_ignoring_case(old(self).registry_view().password, password@) ==> r == Err::<
                (),
                VaultError,
            >(VaultError::AuthenticationFailed) && final(self).lock() == old(self).lock(),
    {
        if self.registry.password().eq_ignore_ascii_case(password) {
            self.state = LockState::Unlocked;
            Ok(())
        } else {
            Err(VaultError::AuthenticationFailed)
        }
    }

    /// The path of the picture that carries the secret of `platform`. Fails
    /// with `AuthenticationFailed` while the vault is locked, else with
    /// `PlatformNotFound` exactly when no entry goes by the name.
    pub fn locate(&self, platform: &str) -> (r: Result<&str, VaultError>)
        ensures
            match r {
                Ok(path) => self.lock() == LockState::Unlocked && exists|i: int| #[trigger]
                    is_first_match(self.registry_view().entries, platform@, i) && path@
                        == self.registry_view().entries[i].path,
                Err(e) => if self.lock() == LockState::Locked {
                    e == VaultError::AuthenticationFailed
                } else {
                    e == VaultError::PlatformNotFound && !knows(
                        self.registry_view().entries,
                        platform@,
                    )
                },
            },
    {
        if self.state == LockState::Locked {
            return Err(VaultError::AuthenticationFailed);
        }
        assert(self.registry_view() == self.registry@);
        self.registry.lookup(platform)
    }

    /// The secret of `platform`, read out of `picture`, which is the picture at
    /// the path that `locate` gives. Fails with `AuthenticationFailed` while the
    /// vault is locked; else with `PlatformNotFound` when no entry goes by the
    /// name; else with `DecodeError` when the bytes in the picture's alpha
    /// channel, the sentinels dropped, are not valid UTF-8.
    pub fn reveal_secret(&self, platform: &str, picture: &CarrierImage) -> (r: Result<
        String,
        VaultError,
    >)
        ensures
            r == Err::<String, VaultError>(VaultError::AuthenticationFailed) <==> self.lock()
                == LockState::Locked,
            r == Err::<String, VaultError>(VaultError::PlatformNotFound) <==> self.lock()
                == LockState::Unlocked && !knows(self.registry_view().entries, platform@),
            r == Err::<String, VaultError>(VaultError::DecodeError) <==> self.lock()
                == LockState::Unlocked && knows(self.registry_view().entries, platform@)
                && !valid_utf8(extracted(picture.samples())),
            r matches Ok(secret) ==> secret@ == decode_utf8(extracted(picture.samples())),
            r matches Err(e) ==> e == VaultError::AuthenticationFailed || e
                == VaultError::PlatformNotFound || e == VaultError::DecodeError,
    {
        match self.locate(platform) {
            Ok(_) => {},
            Err(e) => { return Err(e); },
        }
        let bytes = decode(picture);
        from_bytes(bytes.as_slice())
    }

    /// Whether a secret may be stored under `platform`, to be asked before the
    /// carrier is read. Fails with `AuthenticationFailed` while the vault is
    /// locked, else with `DuplicatePlatform` exactly when an entry already goes
    /// by the name.
    pub fn check_vacant(&self, platform: &str) -> (r: Result<(), VaultError>)
        ensures
            r == if self.lock() == LockState::Locked {
                Err::<(), VaultError>(VaultError::AuthenticationFailed)
            } else if knows(self.registry_view().entries, platform@) {
                Err::<(), VaultError>(VaultError::DuplicatePlatform)
            } else {
                Ok::<(), VaultError>(())
            },
    {
        match self.locate(platform) {
            Ok(_) => Err(VaultError::DuplicatePlatform),
            Err(VaultError::PlatformNotFound) => Ok(()),
            Err(e) => Err(e),
        }
    }

    /// Stores `secret` for the new platform `platform` in `carrier`, the picture
    /// read from `picture_path`. Refuses as `store_refusal` says, and then
    /// changes nothing. Else it succeeds: the registry gains the entry, and the
    /// outcome holds the picture with the secret's bytes in its alpha channel
    /// and the text of the registry document.
    pub fn store(
        &mut self,
        platform: &str,
        picture_path: &str,
        carrier: &CarrierImage,
        secret: &str,
    ) -> (r: Result<StoreOutcome, VaultError>)
        ensures
            final(self).lock() == old(self).lock(),
            final(self).registry_view().password == old(self).registry_view().password,
            carrier.is_grid(),
            match store_refusal(
                old(self).lock(),
                old(self).registry_view().entries,
                platform@,
                carrier.spec_capacity(),
                encode_utf8(secret@),
            ) {
                Some(e) => r matches Err(got) && got == e && final(self).registry_view() == old(
                    self,
                ).registry_view(),
                None => {
                    &&& final(self).registry_view().entries == added(
                        old(self).registry_view().entries,
                        platform@,
                        picture_path@,
                    )
                    &&& r matches Ok(outcome)
                    &&& outcome.picture.is_grid()
                    &&& outcome.picture.spec_width() == carrier.spec_width()
                    &&& outcome.picture.spec_height() == carrier.spec_height()
                    &&& outcome.picture.samples() == embedded(
                        carrier.samples(),
                        encode_utf8(secret@),
                    )
                    &&& outcome.document@ == json_pretty(
                        document_of(final(self).registry_view()),
                    )
                },
            },
    {
        let available = carrier.capacity();
        if self.state == LockState::Locked {
            return Err(VaultError::AuthenticationFailed);
        }
        if self.registry.lookup(platform).is_ok() {
            return Err(VaultError::DuplicatePlatform);
        }
        let bytes = to_bytes(secret);
        let picture = match encode(carrier, bytes.as_slice()) {
            Ok(picture) => picture,
            Err(e) => { return Err(e); },
        };
        let _ = self.registry.add_platform(platform, picture_path);
        match to_document(&self.registry) {
            Ok(document) => Ok(StoreOutcome { picture, document }),
            Err(e) => Err(e),
        }
    }
}

/// What is stored is revealed: the picture that `store` makes for a text, in a
/// carrier with a pixel for each of its bytes, carries bytes that are valid
/// UTF-8 and decode to that text, whatever the text.
pub proof fn law_stored_text_is_revealed(carrier: Seq<u8>, text: Seq<char>)
    requires
        carrier.len() % 4 == 0,
        encode_utf8(text).len() <= carrier.len() / 4,
    ensures
        valid_utf8(extracted(embedded(carrier, encode_utf8(text)))),
        decode_utf8(extracted(embedded(carrier, encode_utf8(text)))) == text,
{
    law_text_is_sentinel_free(text);
    law_round_trip(carrier, encode_utf8(text));
    law_text_round_trip(text);
}

} // verus!
