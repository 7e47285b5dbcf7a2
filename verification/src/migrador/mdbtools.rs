//! Salida de las herramientas externas de lectura de `.mdb` (`mdb-tables -1`):
//! qué tablas lista. Lanzar los procesos con su plazo queda fuera.

use vstd::prelude::*;
use crate::protocolo::{dividir, partes};
use crate::texto::{cadena, caracteres, recortado, recortar};

verus! {

/// Las líneas del listado, recortadas y sin las vacías, en orden.
pub open spec fn nombres_listados(lineas: Seq<Seq<char>>) -> Seq<Seq<char>>
    decreases lineas.len(),
{
    if lineas.len() == 0 {
        Seq::empty()
    } else {
        let previos = nombres_listados(lineas.drop_last());
        let l = recortado(lineas.last());
        if l.len() > 0 {
            previos.push(l)
        } else {
            previos
        }
    }
}

/// Nombres de las tablas de un listado con una tabla por línea: cada línea
/// recortada, sin las que quedan vacías.
pub fn tablas_de_listado(texto: &str) -> (r: Vec<String>)
    ensures
        r@.map_values(|s: String| s@) == nombres_listados(partes(texto@, '\n')),
{
    let lineas = dividir(&caracteres(texto), '\n');
    let ghost vl = lineas@.map_values(|t: Vec<char>| t@);
    let mut r: Vec<String> = Vec::new();
    let mut i: usize = 0;
    while i < lineas.len()
        invariant
            i <= lineas.len(),
            vl == lineas@.map_values(|t: Vec<char>| t@),
            vl == partes(texto@, '\n'),
            r@.map_values(|s: String| s@) == nombres_listados(vl.subrange(0, i as int)),
        decreases lineas.len() - i,
    {
        let ghost sub = vl.subrange(0, i + 1);
        assert(sub.drop_last() =~= vl.subrange(0, i as int));
        assert(sub.last() == lineas@[i as int]@);
        let l = recortar(&lineas[i]);
        if l.len() > 0 {
            let ghost antes = r@.map_values(|s: String| s@);
            let s = cadena(l.as_slice());
            r.push(s);
            assert(r@.map_values(|s: String| s@) =~= antes.push(l@));
        }
        i += 1;
    }
    assert(vl.subrange(0, lineas.len() as int) =~= vl);
    r
}

} // verus!
