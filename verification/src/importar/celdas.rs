//! Normalización de las celdas del archivo según el tipo del campo destino,
//! y casamiento de una columna con su campo.

use vstd::prelude::*;
use vstd::string::*;
use crate::calc::functions::{fecha_iso_con_formato, fecha_leida, iso_de};
use crate::db::query_builder::{es_flotante, reconoce_flotante};
use crate::error::{MicError, MicErrorSpec};
use crate::model::{CampoDef, Tabla, TipoCampo};
use crate::texto::{
    cadena, caracteres, concatenar3, igual_sin_caja, iguales_sin_caja, lema_contiene_push,
    recortado, recortar, tramo,
};

verus! {

/// La columna casa con el campo: campo principal cuyo nombre, sin blancos en
/// los extremos, es el de la columna sin distinguir mayúsculas.
pub open spec fn casa_columna(c: CampoDef, columna: Seq<char>) -> bool {
    c.tabla == Tabla::Principal && igual_sin_caja(recortado(c.nombre@), recortado(columna))
}

/// Primer campo que casa con la columna.
pub open spec fn campo_columna(campos: Seq<CampoDef>, columna: Seq<char>) -> Option<int>
    decreases campos.len(),
{
    if campos.len() == 0 {
        None
    } else {
        match campo_columna(campos.drop_last(), columna) {
            Some(i) => Some(i),
            None => if casa_columna(campos.last(), columna) {
                Some(campos.len() - 1)
            } else {
                None
            },
        }
    }
}

proof fn lema_campo_columna(c: Seq<CampoDef>, m: int, columna: Seq<char>)
    requires
        0 <= m <= c.len(),
        campo_columna(c.subrange(0, m), columna) is Some,
    ensures
        campo_columna(c, columna) == campo_columna(c.subrange(0, m), columna),
    decreases c.len() - m,
{
    if m < c.len() {
        assert(c.subrange(0, m + 1).drop_last() =~= c.subrange(0, m));
        lema_campo_columna(c, m + 1, columna);
    } else {
        assert(c.subrange(0, m) =~= c);
    }
}

/// Posición del campo principal que casa con una columna del archivo.
pub fn posicion_columna_campo(campos: &[CampoDef], columna: &str) -> (r: Option<usize>)
    ensures
        match r {
            Some(i) => i < campos@.len() && campo_columna(campos@, columna@) == Some(i as int),
            None => campo_columna(campos@, columna@) is None,
        },
{
    let col = recortar(&caracteres(columna));
    let mut i: usize = 0;
    while i < campos.len()
        invariant
            i <= campos.len(),
            col@ == recortado(columna@),
            campo_columna(campos@.subrange(0, i as int), columna@) is None,
        decreases campos.len() - i,
    {
        let ghost sub = campos@.subrange(0, i + 1);
        assert(sub.drop_last() =~= campos@.subrange(0, i as int));
        assert(sub.last() == campos@[i as int]);
        let c = &campos[i];
        if c.tabla == Tabla::Principal && iguales_sin_caja(
            &recortar(&caracteres(c.nombre.as_str())),
            &col,
        ) {
            proof {
                lema_campo_columna(campos@, i + 1, columna@);
            }
            return Some(i);
        }
        i += 1;
    }
    assert(campos@.subrange(0, i as int) =~= campos@);
    None
}

/// Casa una columna del archivo con un campo principal del álbum (sin
/// distinguir mayúsculas, sin blancos en los extremos).
pub fn campo_para_columna<'a>(campos: &'a [CampoDef], columna: &str) -> (r: Option<&'a CampoDef>)
    ensures
        match campo_columna(campos@, columna@) {
            Some(i) => r matches Some(c) && *c == campos@[i],
            None => r is None,
        },
{
    match posicion_columna_campo(campos, columna) {
        Some(i) => Some(&campos[i]),
        None => None,
    }
}

/// Política ante una llave que ya existe en el álbum.
#[derive(Debug, Clone, Copy, PartialEq, Eq, Structural)]
pub enum Politica {
    Sustituir,
    Mantener,
    RellenarVacios,
}

impl Politica {
    /// Política de un texto (`sustituir`, `mantener` o `rellenar_vacios`).
    pub fn desde(texto: &str) -> (r: Result<Politica, MicError>)
        ensures
            texto@ == "sustituir"@ ==> r == Ok::<Politica, MicError>(Politica::Sustituir),
            texto@ == "mantener"@ ==> r == Ok::<Politica, MicError>(Politica::Mantener),
            texto@ == "rellenar_vacios"@ ==> r == Ok::<Politica, MicError>(Politica::RellenarVacios),
            texto@ != "sustituir"@ && texto@ != "mantener"@ && texto@ != "rellenar_vacios"@ ==> (
            r matches Err(e) && e@ == MicErrorSpec::Invalido(
                "política de importación no soportada: '"@ + texto@ + "'"@,
            )),
    {
        proof {
            reveal_strlit("sustituir");
            reveal_strlit("mantener");
            reveal_strlit("rellenar_vacios");
            assert("sustituir"@ != "mantener"@) by {
                assert("sustituir"@[0] != "mantener"@[0]);
            }
            assert("sustituir"@ != "rellenar_vacios"@) by {
                assert("sustituir"@[0] != "rellenar_vacios"@[0]);
            }
            assert("mantener"@ != "rellenar_vacios"@) by {
                assert("mantener"@[0] != "rellenar_vacios"@[0]);
            }
        }
        let t = String::from_str(texto);
        if t == String::from_str("sustituir") {
            Ok(Politica::Sustituir)
        } else if t == String::from_str("mantener") {
            Ok(Politica::Mantener)
        } else if t == String::from_str("rellenar_vacios") {
            Ok(Politica::RellenarVacios)
        } else {
            Err(
                MicError::Invalido(
                    concatenar3("política de importación no soportada: '", texto, "'"),
                ),
            )
        }
    }
}

/// Símbolos que se quitan de un número importado: `$`, `€`, `%`, espacio y
/// espacio duro.
pub open spec fn simbolo_numero(c: char) -> bool {
    c == '$' || c == '€' || c == '%' || c == ' ' || c == '\u{a0}'
}

/// `s` sin los caracteres que cumplen `p`.
pub open spec fn sin_car(s: Seq<char>, p: spec_fn(char) -> bool) -> Seq<char>
    decreases s.len(),
{
    if s.len() == 0 {
        Seq::empty()
    } else if p(s.last()) {
        sin_car(s.drop_last(), p)
    } else {
        sin_car(s.drop_last(), p).push(s.last())
    }
}

/// Cantidad de comas.
pub open spec fn cuenta_comas(s: Seq<char>) -> nat
    decreases s.len(),
{
    if s.len() == 0 {
        0
    } else {
        cuenta_comas(s.drop_last()) + if s.last() == ',' {
            1nat
        } else {
            0nat
        }
    }
}

/// Comas por puntos.
pub open spec fn coma_a_punto(s: Seq<char>) -> Seq<char> {
    s.map_values(|c: char| if c == ',' { '.' } else { c })
}

/// Texto numérico de una celda: sin símbolos; con punto y coma a la vez, el
/// separador de miles es el punto si el CSV usa `;` (se quita, y la coma pasa
/// a punto) y la coma en otro caso (se quita); con solo comas, varias son de
/// miles (se quitan) y una sola es decimal. `None` si queda vacío.
pub open spec fn texto_numero(texto: Seq<char>, separador: u8) -> Option<Seq<char>> {
    let s = sin_car(texto, |c: char| simbolo_numero(c));
    if s.len() == 0 {
        None
    } else if s.contains('.') && s.contains(',') {
        if separador == 0x3B {
            Some(coma_a_punto(sin_car(s, |c: char| c == '.')))
        } else {
            Some(sin_car(s, |c: char| c == ','))
        }
    } else if s.contains(',') {
        if cuenta_comas(s) > 1 {
            Some(sin_car(s, |c: char| c == ','))
        } else {
            Some(coma_a_punto(s))
        }
    } else {
        Some(s)
    }
}

/// El número de una celda, como el texto (sin blancos) que acepta
/// `f64::from_str`, si lo es.
pub open spec fn numero_celda(texto: Seq<char>, separador: u8) -> Option<Seq<char>> {
    match texto_numero(texto, separador) {
        Some(s) => if es_flotante(recortado(s)) {
            Some(recortado(s))
        } else {
            None
        },
        None => None,
    }
}

/// Quita de `s` los caracteres `c`.
fn quitar(s: &Vec<char>, c: char) -> (r: Vec<char>)
    ensures
        r@ == sin_car(s@, |x: char| x == c),
{
    let mut r: Vec<char> = Vec::new();
    let mut i: usize = 0;
    while i < s.len()
        invariant
            i <= s.len(),
            r@ == sin_car(s@.subrange(0, i as int), |x: char| x == c),
        decreases s.len() - i,
    {
        assert(s@.subrange(0, i + 1).drop_last() =~= s@.subrange(0, i as int));
        if s[i] != c {
            r.push(s[i]);
        }
        i += 1;
    }
    assert(s@.subrange(0, s.len() as int) =~= s@);
    r
}

/// Cambia las comas por puntos.
fn comas_a_puntos(s: &Vec<char>) -> (r: Vec<char>)
    ensures
        r@ == coma_a_punto(s@),
{
    let mut r: Vec<char> = Vec::new();
    let mut i: usize = 0;
    while i < s.len()
        invariant
            i <= s.len(),
            r@ == coma_a_punto(s@.subrange(0, i as int)),
        decreases s.len() - i,
    {
        r.push(if s[i] == ',' { '.' } else { s[i] });
        i += 1;
        assert(r@ =~= coma_a_punto(s@.subrange(0, i as int)));
    }
    assert(s@.subrange(0, s.len() as int) =~= s@);
    r
}

/// Lee el número de una celda importada (con símbolos y separadores de
/// miles del formato local), como el texto que acepta `f64::from_str`.
pub fn parsear_numero(texto: &str, separador: u8) -> (r: Option<String>)
    ensures
        match numero_celda(texto@, separador) {
            Some(t) => r matches Some(x) && x@ == t,
            None => r is None,
        },
{
    let v = caracteres(texto);
    let mut s: Vec<char> = Vec::new();
    let mut punto = false;
    let mut coma = false;
    let mut comas: usize = 0;
    let mut i: usize = 0;
    while i < v.len()
        invariant
            i <= v.len(),
            v@ == texto@,
            s@ == sin_car(v@.subrange(0, i as int), |c: char| simbolo_numero(c)),
            punto == s@.contains('.'),
            coma == s@.contains(','),
            comas as nat == cuenta_comas(s@),
            comas <= i,
        decreases v.len() - i,
    {
        assert(v@.subrange(0, i + 1).drop_last() =~= v@.subrange(0, i as int));
        let c = v[i];
        if !(c == '$' || c == '€' || c == '%' || c == ' ' || c == '\u{a0}') {
            let ghost s0 = s@;
            s.push(c);
            proof {
                lema_contiene_push(s0, c, '.');
                lema_contiene_push(s0, c, ',');
                assert(s@.drop_last() =~= s0);
            }
            if c == '.' {
                punto = true;
            }
            if c == ',' {
                coma = true;
                comas += 1;
            }
        }
        i += 1;
    }
    assert(v@.subrange(0, v.len() as int) =~= v@);
    if s.len() == 0 {
        return None;
    }
    let t = if punto && coma {
        if separador == 0x3B {
            comas_a_puntos(&quitar(&s, '.'))
        } else {
            quitar(&s, ',')
        }
    } else if coma {
        if comas > 1 {
            quitar(&s, ',')
        } else {
            comas_a_puntos(&s)
        }
    } else {
        s
    };
    let u = recortar(&t);
    if reconoce_flotante(&u) {
        Some(cadena(&u))
    } else {
        None
    }
}

/// Los primeros caracteres de `s` cuyo UTF-8 ocupa exactamente `n` bytes,
/// si ese corte cae en un límite de carácter.
pub open spec fn prefijo_bytes(s: Seq<char>, n: int) -> Option<Seq<char>>
    decreases s.len(),
{
    if n == 0 {
        Some(Seq::empty())
    } else if s.len() == 0 || n < 0 {
        None
    } else {
        match prefijo_bytes(s.drop_first(), n - largo_utf8(s[0])) {
            Some(p) => Some(seq![s[0]] + p),
            None => None,
        }
    }
}

/// Bytes que ocupa un carácter en UTF-8.
pub open spec fn largo_utf8(c: char) -> int {
    if (c as u32) < 0x80 {
        1
    } else if (c as u32) < 0x800 {
        2
    } else if (c as u32) < 0x10000 {
        3
    } else {
        4
    }
}

/// La fecha ISO de una celda importada: si los primeros 10 bytes (sin
/// blancos en los extremos) son una fecha `%Y-%m-%d`, esa; si no, el texto
/// completo leído como `%d/%m/%Y`, `%d-%m-%Y`, `%d/%m/%y` o `%d-%m-%y`.
pub open spec fn fecha_celda(texto: Seq<char>) -> Option<Seq<char>> {
    let t = recortado(texto);
    let iso = match prefijo_bytes(t, 10) {
        Some(p) => fecha_leida(p, "%Y-%m-%d"@),
        None => None,
    };
    if iso is Some {
        Some(iso_de(iso->Some_0))
    } else if fecha_leida(t, "%d/%m/%Y"@) is Some {
        Some(iso_de(fecha_leida(t, "%d/%m/%Y"@)->Some_0))
    } else if fecha_leida(t, "%d-%m-%Y"@) is Some {
        Some(iso_de(fecha_leida(t, "%d-%m-%Y"@)->Some_0))
    } else if fecha_leida(t, "%d/%m/%y"@) is Some {
        Some(iso_de(fecha_leida(t, "%d/%m/%y"@)->Some_0))
    } else if fecha_leida(t, "%d-%m-%y"@) is Some {
        Some(iso_de(fecha_leida(t, "%d-%m-%y"@)->Some_0))
    } else {
        None
    }
}

/// Bytes UTF-8 de un carácter.
fn largo_utf8_exec(c: char) -> (r: usize)
    ensures
        r as int == largo_utf8(c),
{
    if (c as u32) < 0x80 {
        1
    } else if (c as u32) < 0x800 {
        2
    } else if (c as u32) < 0x10000 {
        3
    } else {
        4
    }
}

/// Lee una fecha importada y la devuelve en ISO `YYYY-MM-DD`: ISO (con o sin
/// hora) y los formatos `dd/MM/yyyy` y `dd-MM-yyyy` (también con año de dos
/// cifras).
pub fn parsear_fecha(texto: &str) -> (r: Option<String>)
    ensures
        match fecha_celda(texto@) {
            Some(x) => r matches Some(y) && y@ == x,
            None => r is None,
        },
{
    let t = recortar(&caracteres(texto));
    let ghost ts = t@;
    let mut k: usize = 0;
    let mut bytes: usize = 0;
    assert(ts.subrange(0, ts.len() as int) =~= ts);
    proof {
        match prefijo_bytes(ts, 10) {
            Some(p) => {
                assert(ts.subrange(0, 0) + p =~= p);
            },
            None => {},
        }
    }
    while k < t.len() && bytes < 10
        invariant
            k <= t.len(),
            bytes <= 13,
            ts == t@,
            prefijo_bytes(ts, 10) == match prefijo_bytes(ts.subrange(k as int, ts.len() as int), 10 - bytes) {
                Some(p) => Some(ts.subrange(0, k as int) + p),
                None => None,
            },
        decreases t.len() - k,
    {
        let ghost resto = ts.subrange(k as int, ts.len() as int);
        assert(resto.drop_first() =~= ts.subrange(k + 1, ts.len() as int));
        assert(resto[0] == ts[k as int]);
        proof {
            let r2 = prefijo_bytes(resto.drop_first(), 10 - bytes - largo_utf8(ts[k as int]));
            match r2 {
                Some(p) => {
                    assert(ts.subrange(0, k as int) + (seq![ts[k as int]] + p) =~= ts.subrange(
                        0,
                        k + 1,
                    ) + p);
                },
                None => {},
            }
        }
        bytes = bytes + largo_utf8_exec(t[k]);
        k += 1;
    }
    let mut iso: Option<String> = None;
    if bytes == 10 {
        proof {
            assert(ts.subrange(0, k as int) + Seq::<char>::empty() =~= ts.subrange(0, k as int));
        }
        let p = cadena(&tramo(&t, 0, k));
        iso = fecha_iso_con_formato(p.as_str(), "%Y-%m-%d");
    } else {
        proof {
            if bytes < 10 {
                assert(k == t.len());
                assert(ts.subrange(k as int, ts.len() as int).len() == 0);
            }
        }
    }
    if iso.is_some() {
        return iso;
    }
    let s = cadena(&t);
    let a = fecha_iso_con_formato(s.as_str(), "%d/%m/%Y");
    if a.is_some() {
        return a;
    }
    let b = fecha_iso_con_formato(s.as_str(), "%d-%m-%Y");
    if b.is_some() {
        return b;
    }
    let c = fecha_iso_con_formato(s.as_str(), "%d/%m/%y");
    if c.is_some() {
        return c;
    }
    fecha_iso_con_formato(s.as_str(), "%d-%m-%y")
}

} // verus!
