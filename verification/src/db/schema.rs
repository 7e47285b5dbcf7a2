//! Nombres físicos de las columnas de los campos configurables y forma en
//! que se guarda una fecha.
//!
//! El nombre visible elegido por el usuario nunca aparece en el SQL: cada
//! campo tiene la columna `f_<id>`, con `id` el entero asignado por la base,
//! así que el identificador es siempre seguro.

use vstd::prelude::*;
use vstd::string::*;
use crate::texto::{cadena, caracteres, decimal, decimal_spec, recortado, recortar, tramo};

verus! {

/// Texto decimal de un entero con signo.
pub open spec fn entero_texto(n: int) -> Seq<char> {
    if n < 0 {
        seq!['-'] + decimal_spec((-n) as nat)
    } else {
        decimal_spec(n as nat)
    }
}

/// Texto decimal de un `i64` (como `format!("{n}")`).
pub fn texto_entero(n: i64) -> (r: Vec<char>)
    ensures
        r@ == entero_texto(n as int),
{
    if n < 0 {
        let m: u64 = (0 - (n as i128)) as u64;
        let d = decimal(m);
        let mut r: Vec<char> = Vec::new();
        r.push('-');
        let mut i: usize = 0;
        while i < d.len()
            invariant
                i <= d.len(),
                r@ == seq!['-'] + d@.subrange(0, i as int),
            decreases d.len() - i,
        {
            r.push(d[i]);
            i += 1;
            assert(r@ =~= seq!['-'] + d@.subrange(0, i as int));
        }
        assert(d@.subrange(0, d.len() as int) =~= d@);
        r
    } else {
        decimal(n as u64)
    }
}

/// Nombre de la columna física del campo `id`: `f_<id>`.
pub open spec fn col_fisica_spec(id: i64) -> Seq<char> {
    seq!['f', '_'] + entero_texto(id as int)
}

/// Nombre físico de la columna SQLite del campo con identificador `id`:
/// siempre `f_<id>`.
pub fn col_fisica(id: i64) -> (r: String)
    ensures
        r@ == col_fisica_spec(id),
{
    let d = texto_entero(id);
    let mut v: Vec<char> = Vec::new();
    v.push('f');
    v.push('_');
    let mut i: usize = 0;
    while i < d.len()
        invariant
            i <= d.len(),
            v@ == seq!['f', '_'] + d@.subrange(0, i as int),
        decreases d.len() - i,
    {
        v.push(d[i]);
        i += 1;
        assert(v@ =~= seq!['f', '_'] + d@.subrange(0, i as int));
    }
    assert(d@.subrange(0, d.len() as int) =~= d@);
    cadena(&v)
}

/// Texto con que se guarda una fecha: sin blancos en los extremos y
/// reducido a sus primeros 10 caracteres (`AAAA-MM-DD`); ninguno si queda
/// vacío.
pub open spec fn fecha_guardada_spec(t: Seq<char>) -> Option<Seq<char>> {
    let r = recortado(t);
    if r.len() == 0 {
        None
    } else if r.len() <= 10 {
        Some(r)
    } else {
        Some(r.subrange(0, 10))
    }
}

/// El texto que se guarda para el valor `texto` de un campo de fecha.
pub fn fecha_guardada(texto: &str) -> (r: Option<String>)
    ensures
        match (r, fecha_guardada_spec(texto@)) {
            (Some(s), Some(t)) => s@ == t,
            (None, None) => true,
            _ => false,
        },
{
    let t = recortar(&caracteres(texto));
    if t.len() == 0 {
        None
    } else if t.len() <= 10 {
        Some(cadena(t.as_slice()))
    } else {
        Some(cadena(tramo(&t, 0, 10).as_slice()))
    }
}
} // verus!
