//! The Lurk protocol values that the engine uses: character flags, error
//! codes and packet types, all from `lurk_protocol`.
//!
//! Everything in this file is trusted: each function makes one call into
//! `lurk_protocol` and its contract restates what that crate's source shows.

use lurk_protocol::{CharacterFlags, LurkError, PktType};
use vstd::prelude::*;

verus! {

/// The flag set of a character (`lurk_protocol::CharacterFlags`, a bit set
/// over one byte).
#[verifier::external_type_specification]
#[verifier::external_body]
pub struct ExCharacterFlags(CharacterFlags);

/// The error codes of the protocol (`lurk_protocol::LurkError`).
#[verifier::external_type_specification]
#[verifier::external_body]
pub struct ExLurkError(LurkError);

/// The packet types of the protocol (`lurk_protocol::PktType`).
#[verifier::external_type_specification]
#[verifier::external_body]
pub struct ExPktType(PktType);

/// The byte that holds a flag set: what `CharacterFlags::bits` returns.
pub uninterp spec fn flag_bits(f: CharacterFlags) -> u8;

/// What `LurkError::from(code)` returns for a protocol error byte.
pub uninterp spec fn lurk_error_of(code: u8) -> LurkError;

/// What `PktType::from(code)` returns for a protocol packet-type byte.
pub uninterp spec fn pkt_type_of(code: u8) -> PktType;

/// The bit of `ALIVE`.
pub open spec fn alive_bit() -> u8 {
    0x80
}

/// The bit of `BATTLE`.
pub open spec fn battle_bit() -> u8 {
    0x40
}

/// The bit of `MONSTER`.
pub open spec fn monster_bit() -> u8 {
    0x20
}

/// The bit of `STARTED`.
pub open spec fn started_bit() -> u8 {
    0x10
}

/// The bit of `READY`.
pub open spec fn ready_bit() -> u8 {
    0x08
}

/// Whether the byte `b` has the bit `bit` set.
pub open spec fn has_bit(b: u8, bit: u8) -> bool {
    b & bit != 0
}

/// `CharacterFlags::alive()`: the set `ALIVE | BATTLE | READY` (byte `0xC8`).
#[verifier::external_body]
pub(crate) fn alive_flags() -> (f: CharacterFlags)
    ensures
        flag_bits(f) == 0xC8,
{
    CharacterFlags::alive()
}

/// `CharacterFlags::dead()`: the set `BATTLE | READY` (byte `0x48`).
#[verifier::external_body]
pub(crate) fn dead_flags() -> (f: CharacterFlags)
    ensures
        flag_bits(f) == 0x48,
{
    CharacterFlags::dead()
}

/// `CharacterFlags::empty()`: the set with no flag (byte `0`).
#[verifier::external_body]
pub(crate) fn no_flags() -> (f: CharacterFlags)
    ensures
        flag_bits(f) == 0,
{
    CharacterFlags::empty()
}

/// The constant `CharacterFlags::MONSTER` (byte `0x20`).
#[verifier::external_body]
pub(crate) fn monster_flag() -> (f: CharacterFlags)
    ensures
        flag_bits(f) == monster_bit(),
{
    CharacterFlags::MONSTER
}

/// The constant `CharacterFlags::BATTLE` (byte `0x40`).
#[verifier::external_body]
pub(crate) fn battle_flag() -> (f: CharacterFlags)
    ensures
        flag_bits(f) == battle_bit(),
{
    CharacterFlags::BATTLE
}

/// The constant `CharacterFlags::STARTED` (byte `0x10`).
#[verifier::external_body]
pub(crate) fn started_flag() -> (f: CharacterFlags)
    ensures
        flag_bits(f) == started_bit(),
{
    CharacterFlags::STARTED
}

/// `a | b` on flag sets: the bitwise or of the two bytes.
#[verifier::external_body]
pub(crate) fn union_flags(a: CharacterFlags, b: CharacterFlags) -> (f: CharacterFlags)
    ensures
        flag_bits(f) == flag_bits(a) | flag_bits(b),
{
    a | b
}

/// `CharacterFlags::is_ready`: whether the `READY` bit is set.
#[verifier::external_body]
pub(crate) fn is_ready(f: &CharacterFlags) -> (b: bool)
    ensures
        b == has_bit(flag_bits(*f), ready_bit()),
{
    f.is_ready()
}

/// `CharacterFlags::is_started`: whether the `STARTED` bit is set.
#[verifier::external_body]
pub(crate) fn is_started(f: &CharacterFlags) -> (b: bool)
    ensures
        b == has_bit(flag_bits(*f), started_bit()),
{
    f.is_started()
}

/// `CharacterFlags::is_battle`: whether the `BATTLE` bit is set.
#[verifier::external_body]
pub(crate) fn is_battle(f: &CharacterFlags) -> (b: bool)
    ensures
        b == has_bit(flag_bits(*f), battle_bit()),
{
    f.is_battle()
}

/// `CharacterFlags::is_alive`: whether the `ALIVE` bit is set.
#[verifier::external_body]
pub(crate) fn is_alive(f: &CharacterFlags) -> (b: bool)
    ensures
        b == has_bit(flag_bits(*f), alive_bit()),
{
    f.is_alive()
}

/// `LurkError::from(code)`: the error whose protocol byte is `code`. Its
/// match gives each byte from 0 to 8 a variant of its own and every larger
/// byte the variant of 0 (`OTHER`); the contract says so, and leaves the
/// variants themselves unnamed.
#[verifier::external_body]
pub(crate) fn lurk_error(code: u8) -> (e: LurkError)
    ensures
        e == lurk_error_of(code),
        forall|c: u8| c <= 8 && code <= 8 && c != code ==> lurk_error_of(c) != e,
        code > 8 ==> e == lurk_error_of(0),
{
    LurkError::from(code)
}

/// `PktType::from(code)`: the packet type whose protocol byte is `code`.
/// Its match gives each byte from 0 to 14 a variant of its own and every
/// larger byte the variant of 0 (`DEFAULT`); the contract says so, and
/// leaves the variants themselves unnamed.
#[verifier::external_body]
pub(crate) fn pkt_type(code: u8) -> (t: PktType)
    ensures
        t == pkt_type_of(code),
        forall|c: u8| c <= 14 && code <= 14 && c != code ==> pkt_type_of(c) != t,
        code > 14 ==> t == pkt_type_of(0),
{
    PktType::from(code)
}

} // verus!
