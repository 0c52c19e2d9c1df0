//! The answers of the administration API, from what the database reported.

use vstd::prelude::*;

verus! {

/// An answer of the administration API.
#[derive(Debug, Clone, Copy, PartialEq, Eq)]
pub enum AdminReply {
    ListFailed,
    Created,
    CreateFailed,
    Updated,
    UpdateFailed,
    Deleted,
    DeleteFailed,
    RouteNotFound,
}

/// The HTTP status of an answer.
pub open spec fn admin_status(r: AdminReply) -> u16 {
    match r {
        AdminReply::ListFailed => 500,
        AdminReply::Created => 201,
        AdminReply::CreateFailed => 500,
        AdminReply::Updated => 200,
        AdminReply::UpdateFailed => 500,
        AdminReply::Deleted => 200,
        AdminReply::DeleteFailed => 500,
        AdminReply::RouteNotFound => 404,
    }
}

/// The body text of an answer.
pub open spec fn admin_text(r: AdminReply) -> Seq<char> {
    match r {
        AdminReply::ListFailed => "No se ha podido conectar con la Base de datos"@,
        AdminReply::Created => "Ruta creada correctamente"@,
        AdminReply::CreateFailed => "Error creando la ruta"@,
        AdminReply::Updated => "Ruta actualizada correctamente"@,
        AdminReply::UpdateFailed => "Error actualizando la ruta"@,
        AdminReply::Deleted => "Ruta eliminada correctamente"@,
        AdminReply::DeleteFailed => "Error eliminando la ruta"@,
        AdminReply::RouteNotFound => "Ruta no encontrada"@,
    }
}

impl AdminReply {
    /// The answer's HTTP status.
    pub fn status(&self) -> (s: u16)
        ensures
            s == admin_status(*self),
    {
        match self {
            AdminReply::ListFailed => 500,
            AdminReply::Created => 201,
            AdminReply::CreateFailed => 500,
            AdminReply::Updated => 200,
            AdminReply::UpdateFailed => 500,
            AdminReply::Deleted => 200,
            AdminReply::DeleteFailed => 500,
            AdminReply::RouteNotFound => 404,
        }
    }

    /// The answer's body text.
    pub fn message(&self) -> (m: &'static str)
        ensures
            m@ == admin_text(*self),
    {
        match self {
            AdminReply::ListFailed => "No se ha podido conectar con la Base de datos",
            AdminReply::Created => "Ruta creada correctamente",
            AdminReply::CreateFailed => "Error creando la ruta",
            AdminReply::Updated => "Ruta actualizada correctamente",
            AdminReply::UpdateFailed => "Error actualizando la ruta",
            AdminReply::Deleted => "Ruta eliminada correctamente",
            AdminReply::DeleteFailed => "Error eliminando la ruta",
            AdminReply::RouteNotFound => "Ruta no encontrada",
        }
    }
}

/// A statement changed the route when it affected at least one row.
pub fn route_changed(rows_affected: u64) -> (b: bool)
    ensures
        b == (rows_affected > 0),
{
    rows_affected > 0
}

/// The answer to a creation: `inserted` tells whether the insertion
/// succeeded.
pub fn create_outcome(inserted: bool) -> (r: AdminReply)
    ensures
        r == (if inserted { AdminReply::Created } else { AdminReply::CreateFailed }),
{
    if inserted {
        AdminReply::Created
    } else {
        AdminReply::CreateFailed
    }
}

/// The answer to an update: `changed` is `None` when the database failed,
/// otherwise whether a route was changed.
pub fn update_outcome(changed: Option<bool>) -> (r: AdminReply)
    ensures
        r == match changed {
            Some(true) => AdminReply::Updated,
            Some(false) => AdminReply::RouteNotFound,
            None => AdminReply::UpdateFailed,
        },
{
    match changed {
        Some(true) => AdminReply::Updated,
        Some(false) => AdminReply::RouteNotFound,
        None => AdminReply::UpdateFailed,
    }
}

/// The answer to a deletion: `deleted` is `None` when the database failed,
/// otherwise whether a route was deleted.
pub fn delete_outcome(deleted: Option<bool>) -> (r: AdminReply)
    ensures
        r == match deleted {
            Some(true) => AdminReply::Deleted,
            Some(false) => AdminReply::RouteNotFound,
            None => AdminReply::DeleteFailed,
        },
{
    match deleted {
        Some(true) => AdminReply::Deleted,
        Some(false) => AdminReply::RouteNotFound,
        None => AdminReply::DeleteFailed,
    }
}

} // verus!
