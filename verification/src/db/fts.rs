//! Texto de la búsqueda libre de un registro principal: qué columnas se leen,
//! qué multidatos cuentan y cómo se juntan sus valores. Leer esos valores y
//! escribir el índice queda fuera.

use vstd::prelude::*;
use vstd::string::*;
use crate::db::query_builder::{unir, unir_exec};
use crate::model::{CampoDef, Tabla, TipoCampo};
use crate::texto::{caracteres, concatenar, concatenar3, recortado, recortar};

verus! {

/// Columnas físicas escalares de la tabla principal, en orden.
pub open spec fn columnas_indexables(campos: Seq<CampoDef>) -> Seq<Seq<char>>
    decreases campos.len(),
{
    if campos.len() == 0 {
        Seq::empty()
    } else {
        let previas = columnas_indexables(campos.drop_last());
        let c = campos.last();
        if c.tabla == Tabla::Principal && c.tipo != TipoCampo::Multidato {
            previas.push(c.col_fisica@)
        } else {
            previas
        }
    }
}

/// Una columna leída como texto.
pub open spec fn cast_texto(c: Seq<char>) -> Seq<char> {
    "CAST("@ + c + " AS TEXT)"@
}

/// Consulta que lee como texto las columnas escalares de un registro
/// principal (parámetro `?1`: su id); ninguna si no hay columnas.
pub open spec fn sql_indexable_spec(campos: Seq<CampoDef>) -> Option<Seq<char>> {
    let cols = columnas_indexables(campos);
    if cols.len() == 0 {
        None
    } else {
        Some(
            "SELECT "@ + unir(
                cols.map_values(|c: Seq<char>| cast_texto(c)),
                ", "@,
            ) + " FROM principal WHERE _id_ = ?1"@,
        )
    }
}

/// La consulta de las columnas escalares que entran en la búsqueda libre.
pub fn sql_texto_indexable(campos: &[CampoDef]) -> (r: Option<String>)
    ensures
        match (r, sql_indexable_spec(campos@)) {
            (Some(s), Some(t)) => s@ == t,
            (None, None) => true,
            _ => false,
        },
{
    let mut partes: Vec<String> = Vec::new();
    let mut i: usize = 0;
    while i < campos.len()
        invariant
            i <= campos.len(),
            partes@.map_values(|s: String| s@) == columnas_indexables(
                campos@.subrange(0, i as int),
            ).map_values(|c: Seq<char>| cast_texto(c)),
        decreases campos.len() - i,
    {
        let ghost sub = campos@.subrange(0, i + 1);
        assert(sub.drop_last() =~= campos@.subrange(0, i as int));
        let c = &campos[i];
        if c.tabla == Tabla::Principal && c.tipo != TipoCampo::Multidato {
            proof {
                reveal_strlit("CAST(");
                reveal_strlit(" AS TEXT)");
            }
            let ghost antes = partes@.map_values(|s: String| s@);
            let p = concatenar3("CAST(", c.col_fisica.as_str(), " AS TEXT)");
            assert(p@ == cast_texto(c.col_fisica@));
            partes.push(p);
            assert(partes@.map_values(|s: String| s@) =~= antes.push(p@));
            assert(columnas_indexables(sub).map_values(|c: Seq<char>| cast_texto(c)) =~= columnas_indexables(
                campos@.subrange(0, i as int),
            ).map_values(|c: Seq<char>| cast_texto(c)).push(cast_texto(c.col_fisica@)));
        }
        i += 1;
    }
    assert(campos@.subrange(0, campos.len() as int) =~= campos@);
    if partes.len() == 0 {
        return None;
    }
    proof {
        reveal_strlit("SELECT ");
        reveal_strlit(", ");
        reveal_strlit(" FROM principal WHERE _id_ = ?1");
    }
    let lista = unir_exec(&partes, ", ");
    Some(concatenar3("SELECT ", lista.as_str(), " FROM principal WHERE _id_ = ?1"))
}

/// Ids de los campos multidato de la tabla principal, en orden.
pub open spec fn multidatos_indexables_spec(campos: Seq<CampoDef>) -> Seq<i64>
    decreases campos.len(),
{
    if campos.len() == 0 {
        Seq::empty()
    } else {
        let previos = multidatos_indexables_spec(campos.drop_last());
        let c = campos.last();
        if c.tabla == Tabla::Principal && c.tipo == TipoCampo::Multidato {
            previos.push(c.id)
        } else {
            previos
        }
    }
}

/// Los campos multidato cuyos valores entran en la búsqueda libre.
pub fn multidatos_indexables(campos: &[CampoDef]) -> (r: Vec<i64>)
    ensures
        r@ == multidatos_indexables_spec(campos@),
{
    let mut r: Vec<i64> = Vec::new();
    let mut i: usize = 0;
    while i < campos.len()
        invariant
            i <= campos.len(),
            r@ == multidatos_indexables_spec(campos@.subrange(0, i as int)),
        decreases campos.len() - i,
    {
        let ghost sub = campos@.subrange(0, i + 1);
        assert(sub.drop_last() =~= campos@.subrange(0, i as int));
        if campos[i].tabla == Tabla::Principal && campos[i].tipo == TipoCampo::Multidato {
            r.push(campos[i].id);
        }
        i += 1;
    }
    assert(campos@.subrange(0, campos.len() as int) =~= campos@);
    r
}

/// Los valores presentes y no en blanco, en orden.
pub open spec fn con_texto(partes: Seq<Option<String>>) -> Seq<Seq<char>>
    decreases partes.len(),
{
    if partes.len() == 0 {
        Seq::empty()
    } else {
        let previas = con_texto(partes.drop_last());
        match partes.last() {
            Some(s) => if recortado(s@).len() > 0 {
                previas.push(s@)
            } else {
                previas
            },
            None => previas,
        }
    }
}

/// El texto indexable de un registro: sus valores (escalares leídos como
/// texto y luego los de sus multidatos) que no son nulos ni están en
/// blanco, separados por un espacio.
pub fn unir_indexable(partes: &[Option<String>]) -> (r: String)
    ensures
        r@ == unir(con_texto(partes@), " "@),
{
    let mut v: Vec<String> = Vec::new();
    let mut i: usize = 0;
    while i < partes.len()
        invariant
            i <= partes.len(),
            v@.map_values(|s: String| s@) == con_texto(partes@.subrange(0, i as int)),
        decreases partes.len() - i,
    {
        let ghost sub = partes@.subrange(0, i + 1);
        assert(sub.drop_last() =~= partes@.subrange(0, i as int));
        match &partes[i] {
            Some(s) => {
                let cs = caracteres(s.as_str());
                if recortar(&cs).len() > 0 {
                    let ghost antes = v@.map_values(|s: String| s@);
                    v.push(s.clone());
                    assert(v@.map_values(|s: String| s@) =~= antes.push(s@));
                }
            },
            None => {},
        }
        i += 1;
    }
    assert(partes@.subrange(0, partes.len() as int) =~= partes@);
    unir_exec(&v, " ")
}

} // verus!
