//! What registry operations can fail with.

use crate::registry::identifier::{Identifier, Name};
use crate::registry::mapping::{MinecraftVersion, NetworkId};
use vstd::prelude::*;

verus! {

/// Why an entry cannot be registered.
#[derive(Debug)]
pub enum RegistryInsertError {
    /// The identifier is taken.
    AlreadyRegistered(Identifier),
}

/// Why a network ID cannot be assigned.
#[derive(Debug)]
pub enum VersionMappingError {
    /// The registry has no such entry.
    UnknownEntry(Identifier),
    /// The entry has another network ID already.
    IdentifierAlreadyMapped {
        version: MinecraftVersion,
        identifier: Identifier,
        existing_network_id: NetworkId,
        requested_network_id: NetworkId,
    },
    /// The network ID belongs to another entry already.
    NetworkIdAlreadyMapped {
        version: MinecraftVersion,
        network_id: NetworkId,
        existing_identifier: Identifier,
        requested_identifier: Identifier,
    },
}

/// A [`VersionMappingError`] in terms of names.
pub enum MappingFault {
    UnknownEntry(Name),
    IdentifierAlreadyMapped {
        version: MinecraftVersion,
        name: Name,
        existing_id: NetworkId,
        requested_id: NetworkId,
    },
    NetworkIdAlreadyMapped {
        version: MinecraftVersion,
        network_id: NetworkId,
        existing_name: Name,
        requested_name: Name,
    },
}

impl View for VersionMappingError {
    type V = MappingFault;

    open spec fn view(&self) -> MappingFault {
        match self {
            VersionMappingError::UnknownEntry(identifier) => MappingFault::UnknownEntry(
                identifier@,
            ),
            VersionMappingError::IdentifierAlreadyMapped {
                version,
                identifier,
                existing_network_id,
                requested_network_id,
            } => MappingFault::IdentifierAlreadyMapped {
                version: *version,
                name: identifier@,
                existing_id: *existing_network_id,
                requested_id: *requested_network_id,
            },
            VersionMappingError::NetworkIdAlreadyMapped {
                version,
                network_id,
                existing_identifier,
                requested_identifier,
            } => MappingFault::NetworkIdAlreadyMapped {
                version: *version,
                network_id: *network_id,
                existing_name: existing_identifier@,
                requested_name: requested_identifier@,
            },
        }
    }
}

/// Why a path does not lead to a registry.
#[derive(Debug)]
pub enum RegistryGetError {
    EmptyPath,
    /// There is no entry of this name.
    NotFound(Identifier),
    /// The entry is not a nested registry.
    ExpectedRegistry(Identifier),
    /// The registry has entries of another type.
    TypeMismatch { identifier: Identifier, expected: &'static str },
}

/// A [`RegistryGetError`] in terms of names.
pub enum GetFault {
    EmptyPath,
    NotFound(Name),
    ExpectedRegistry(Name),
    TypeMismatch { name: Name, expected: &'static str },
}

impl View for RegistryGetError {
    type V = GetFault;

    open spec fn view(&self) -> GetFault {
        match self {
            RegistryGetError::EmptyPath => GetFault::EmptyPath,
            RegistryGetError::NotFound(identifier) => GetFault::NotFound(identifier@),
            RegistryGetError::ExpectedRegistry(identifier) => GetFault::ExpectedRegistry(
                identifier@,
            ),
            RegistryGetError::TypeMismatch { identifier, expected } => GetFault::TypeMismatch {
                name: identifier@,
                expected: *expected,
            },
        }
    }
}

/// An error in terms of names says the same as the error.
pub proof fn law_mapping_errors_keep_what_they_say(error: VersionMappingError)
    ensures
        match error {
            VersionMappingError::UnknownEntry(identifier) => error@ == MappingFault::UnknownEntry(
                (identifier.namespace@, identifier.path@),
            ),
            VersionMappingError::IdentifierAlreadyMapped {
                version,
                identifier,
                existing_network_id,
                requested_network_id,
            } => error@ == (MappingFault::IdentifierAlreadyMapped {
                version,
                name: (identifier.namespace@, identifier.path@),
                existing_id: existing_network_id,
                requested_id: requested_network_id,
            }),
            VersionMappingError::NetworkIdAlreadyMapped {
                version,
                network_id,
                existing_identifier,
                requested_identifier,
            } => error@ == (MappingFault::NetworkIdAlreadyMapped {
                version,
                network_id,
                existing_name: (existing_identifier.namespace@, existing_identifier.path@),
                requested_name: (requested_identifier.namespace@, requested_identifier.path@),
            }),
        },
{
}

/// An error in terms of names says the same as the error.
pub proof fn law_get_errors_keep_what_they_say(error: RegistryGetError)
    ensures
        match error {
            RegistryGetError::EmptyPath => error@ == GetFault::EmptyPath,
            RegistryGetError::NotFound(identifier) => error@ == GetFault::NotFound(
                (identifier.namespace@, identifier.path@),
            ),
            RegistryGetError::ExpectedRegistry(identifier) => error@ == GetFault::ExpectedRegistry(
                (identifier.namespace@, identifier.path@),
            ),
            RegistryGetError::TypeMismatch { identifier, expected } => error@
                == (GetFault::TypeMismatch {
                name: (identifier.namespace@, identifier.path@),
                expected,
            }),
        },
{
}

} // verus!
