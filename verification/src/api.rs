//! The HTTP interface: the parameters of an upload of destinations.
pub mod extractors;

use vstd::prelude::*;

use crate::csv_loader::Posicion;

verus! {

/// The query parameters of an upload of destinations: who uploads, which
/// columns hold what, and whether the first row is a header.
#[derive(Debug)]
pub struct DestinosParams {
    pub user: String,
    pub codigo_erasmus: usize,
    pub nivel_estudios: Option<usize>,
    pub plazas: Option<usize>,
    pub meses: Option<usize>,
    pub idioma: Option<usize>,
    pub observaciones: Option<usize>,
    pub header: bool,
}

impl<'a> From<&'a DestinosParams> for Posicion {
    fn from(value: &'a DestinosParams) -> (r: Self)
        ensures
            r.codigo_erasmus == value.codigo_erasmus,
            r.nivel_estudios == value.nivel_estudios,
            r.plazas == value.plazas,
            r.meses == value.meses,
            r.idioma == value.idioma,
            r.observaciones == value.observaciones,
            r.header == value.header,
    {
        Posicion {
            codigo_erasmus: value.codigo_erasmus,
            nivel_estudios: value.nivel_estudios,
            plazas: value.plazas,
            meses: value.meses,
            idioma: value.idioma,
            observaciones: value.observaciones,
            header: value.header,
        }
    }
}

impl<'a> vstd::std_specs::convert::FromSpecImpl<&'a DestinosParams> for Posicion {
    open spec fn obeys_from_spec() -> bool {
        true
    }

    /// The column positions and the header flag, as the parameters give
    /// them.
    open spec fn from_spec(value: &'a DestinosParams) -> Self {
        Posicion {
            codigo_erasmus: value.codigo_erasmus,
            nivel_estudios: value.nivel_estudios,
            plazas: value.plazas,
            meses: value.meses,
            idioma: value.idioma,
            observaciones: value.observaciones,
            header: value.header,
        }
    }
}

/// The layout of an upload is its parameters' columns and header flag, each
/// as given.
pub proof fn lemma_posicion_from_params(p: DestinosParams)
    ensures
        ({
            let q = <Posicion as vstd::std_specs::convert::FromSpec<&DestinosParams>>::from_spec(
                &p,
            );
            &&& q.codigo_erasmus == p.codigo_erasmus
            &&& q.nivel_estudios == p.nivel_estudios
            &&& q.plazas == p.plazas
            &&& q.meses == p.meses
            &&& q.idioma == p.idioma
            &&& q.observaciones == p.observaciones
            &&& q.header == p.header
        }),
{
}

} // verus!
