//! Códigos persistidos en la base del álbum: el byte de cada tipo de campo y
//! el texto de los operadores de los filtros guardados, con sus lecturas.

use vstd::prelude::*;
use vstd::string::*;
use crate::model::{tipo_de_jet, CampoDef, OpComp, OpRel, Tabla, TipoCampo};

verus! {

/// Byte persistido de cada tipo de campo (0 texto ... 5 multidato).
pub open spec fn byte_de_tipo(t: TipoCampo) -> i64 {
    match t {
        TipoCampo::Texto => 0,
        TipoCampo::Numerico => 1,
        TipoCampo::Moneda => 2,
        TipoCampo::Fecha => 3,
        TipoCampo::Calculado => 4,
        TipoCampo::Multidato => 5,
    }
}

/// Byte persistido de un tipo de campo.
pub fn tipo_a_byte(t: TipoCampo) -> (r: i64)
    ensures
        r == byte_de_tipo(t),
{
    match t {
        TipoCampo::Texto => 0,
        TipoCampo::Numerico => 1,
        TipoCampo::Moneda => 2,
        TipoCampo::Fecha => 3,
        TipoCampo::Calculado => 4,
        TipoCampo::Multidato => 5,
    }
}

/// Leer el byte persistido de un tipo devuelve ese tipo.
pub proof fn ley_byte_tipo(t: TipoCampo)
    ensures
        tipo_de_jet(byte_de_tipo(t) as int) == Some(t),
{
}

/// ¿El tipo admite un índice útil para ordenar y filtrar? Un multidato
/// guarda solo un conteo en su columna, así que no se indexa.
pub fn es_ordenable(t: TipoCampo) -> (r: bool)
    ensures
        r == (t != TipoCampo::Multidato),
{
    match t {
        TipoCampo::Multidato => false,
        _ => true,
    }
}

/// Texto persistido de cada operador de comparación.
pub open spec fn txt_de_op_comp(op: OpComp) -> Seq<char> {
    match op {
        OpComp::Igual => "igual"@,
        OpComp::Distinto => "distinto"@,
        OpComp::Mayor => "mayor"@,
        OpComp::Menor => "menor"@,
        OpComp::MayorIgual => "mayor_igual"@,
        OpComp::MenorIgual => "menor_igual"@,
        OpComp::Contiene => "contiene"@,
        OpComp::Empieza => "empieza"@,
    }
}

/// Texto persistido de un operador de comparación.
pub fn op_comp_a_txt(op: OpComp) -> (r: &'static str)
    ensures
        r@ == txt_de_op_comp(op),
{
    match op {
        OpComp::Igual => "igual",
        OpComp::Distinto => "distinto",
        OpComp::Mayor => "mayor",
        OpComp::Menor => "menor",
        OpComp::MayorIgual => "mayor_igual",
        OpComp::MenorIgual => "menor_igual",
        OpComp::Contiene => "contiene",
        OpComp::Empieza => "empieza",
    }
}

/// Operador de comparación de un texto persistido (`igual` si no es uno
/// conocido).
pub open spec fn op_comp_de_txt(s: Seq<char>) -> OpComp {
    if s == "distinto"@ {
        OpComp::Distinto
    } else if s == "mayor"@ {
        OpComp::Mayor
    } else if s == "menor"@ {
        OpComp::Menor
    } else if s == "mayor_igual"@ {
        OpComp::MayorIgual
    } else if s == "menor_igual"@ {
        OpComp::MenorIgual
    } else if s == "contiene"@ {
        OpComp::Contiene
    } else if s == "empieza"@ {
        OpComp::Empieza
    } else {
        OpComp::Igual
    }
}

/// Lee el texto persistido de un operador de comparación (igual por
/// omisión).
pub fn txt_a_op_comp(s: &str) -> (r: OpComp)
    ensures
        r == op_comp_de_txt(s@),
{
    let t = String::from_str(s);
    let es = |lit: &str| -> (b: bool)
        ensures
            b == (s@ == lit@),
        { t == String::from_str(lit) };
    if es("distinto") {
        OpComp::Distinto
    } else if es("mayor") {
        OpComp::Mayor
    } else if es("menor") {
        OpComp::Menor
    } else if es("mayor_igual") {
        OpComp::MayorIgual
    } else if es("menor_igual") {
        OpComp::MenorIgual
    } else if es("contiene") {
        OpComp::Contiene
    } else if es("empieza") {
        OpComp::Empieza
    } else {
        OpComp::Igual
    }
}

/// Leer el texto que se persiste de un operador devuelve ese operador.
pub proof fn ley_op_comp_txt(op: OpComp)
    ensures
        op_comp_de_txt(txt_de_op_comp(op)) == op,
{
    reveal_strlit("igual");
    reveal_strlit("distinto");
    reveal_strlit("mayor");
    reveal_strlit("menor");
    reveal_strlit("mayor_igual");
    reveal_strlit("menor_igual");
    reveal_strlit("contiene");
    reveal_strlit("empieza");
    let t = txt_de_op_comp(op);
    match op {
        OpComp::Igual => {
            assert(t != "distinto"@ && t != "mayor"@ && t != "menor"@ && t != "contiene"@
                && t != "empieza"@) by {
                assert(t.len() == 5);
                assert(t[0] == 'i');
            }
            assert(t.len() != "mayor_igual"@.len() && t.len() != "menor_igual"@.len());
        },
        OpComp::Distinto => {},
        OpComp::Mayor => {
            assert(t != "distinto"@) by {
                assert(t.len() != "distinto"@.len());
            }
        },
        OpComp::Menor => {
            assert(t != "distinto"@ && t != "mayor"@) by {
                assert(t.len() != "distinto"@.len());
                assert(t[1] != "mayor"@[1]);
            }
        },
        OpComp::MayorIgual => {
            assert(t != "distinto"@ && t != "mayor"@ && t != "menor"@) by {
                assert(t.len() != "distinto"@.len());
                assert(t.len() != "mayor"@.len());
                assert(t.len() != "menor"@.len());
            }
        },
        OpComp::MenorIgual => {
            assert(t != "distinto"@ && t != "mayor"@ && t != "menor"@ && t != "mayor_igual"@) by {
                assert(t.len() != "distinto"@.len());
                assert(t.len() != "mayor"@.len());
                assert(t.len() != "menor"@.len());
                assert(t[1] != "mayor_igual"@[1]);
            }
        },
        OpComp::Contiene => {
            assert(t != "distinto"@ && t != "mayor"@ && t != "menor"@ && t != "mayor_igual"@
                && t != "menor_igual"@) by {
                assert(t[0] != "distinto"@[0]);
                assert(t.len() != "mayor"@.len());
                assert(t.len() != "menor"@.len());
                assert(t.len() != "mayor_igual"@.len());
                assert(t.len() != "menor_igual"@.len());
            }
        },
        OpComp::Empieza => {
            assert(t != "distinto"@ && t != "mayor"@ && t != "menor"@ && t != "mayor_igual"@
                && t != "menor_igual"@ && t != "contiene"@) by {
                assert(t[0] != "distinto"@[0]);
                assert(t.len() != "mayor"@.len());
                assert(t.len() != "menor"@.len());
                assert(t.len() != "mayor_igual"@.len());
                assert(t.len() != "menor_igual"@.len());
                assert(t.len() != "contiene"@.len());
            }
        },
    }
}

/// Texto persistido de un conector (ninguno en la primera condición).
pub open spec fn txt_de_op_rel(op: Option<OpRel>) -> Option<Seq<char>> {
    match op {
        Some(OpRel::Y) => Some("y"@),
        Some(OpRel::O) => Some("o"@),
        None => None,
    }
}

/// Texto persistido de un conector opcional.
pub fn op_rel_a_txt(op: Option<OpRel>) -> (r: Option<&'static str>)
    ensures
        match txt_de_op_rel(op) {
            Some(t) => r matches Some(s) && s@ == t,
            None => r is None,
        },
{
    match op {
        Some(OpRel::Y) => Some("y"),
        Some(OpRel::O) => Some("o"),
        None => None,
    }
}

/// Conector de un texto persistido (`y`, `o`; ninguno en otro caso).
pub open spec fn op_rel_de_txt(s: Option<Seq<char>>) -> Option<OpRel> {
    match s {
        Some(t) => if t == "y"@ {
            Some(OpRel::Y)
        } else if t == "o"@ {
            Some(OpRel::O)
        } else {
            None
        },
        None => None,
    }
}

/// Lee el conector persistido.
pub fn txt_a_op_rel(s: Option<String>) -> (r: Option<OpRel>)
    ensures
        r == op_rel_de_txt(
            match s {
                Some(t) => Some(t@),
                None => None,
            },
        ),
{
    match s {
        Some(t) => {
            if t == String::from_str("y") {
                Some(OpRel::Y)
            } else if t == String::from_str("o") {
                Some(OpRel::O)
            } else {
                None
            }
        },
        None => None,
    }
}

/// Leer el texto que se persiste de un conector devuelve ese conector.
pub proof fn ley_op_rel_txt(op: Option<OpRel>)
    ensures
        op_rel_de_txt(txt_de_op_rel(op)) == op,
{
    reveal_strlit("y");
    reveal_strlit("o");
    assert("y"@ != "o"@) by {
        assert("y"@[0] != "o"@[0]);
    }
}

/// Primer campo de nombre visible `nombre`.
pub open spec fn primer_campo(campos: Seq<CampoDef>, nombre: Seq<char>) -> Option<int>
    decreases campos.len(),
{
    if campos.len() == 0 {
        None
    } else {
        match primer_campo(campos.drop_last(), nombre) {
            Some(i) => Some(i),
            None => if campos.last().nombre@ == nombre {
                Some(campos.len() - 1)
            } else {
                None
            },
        }
    }
}

proof fn lema_primer_campo(c: Seq<CampoDef>, m: int, nombre: Seq<char>)
    requires
        0 <= m <= c.len(),
        primer_campo(c.subrange(0, m), nombre) is Some,
    ensures
        primer_campo(c, nombre) == primer_campo(c.subrange(0, m), nombre),
    decreases c.len() - m,
{
    if m < c.len() {
        assert(c.subrange(0, m + 1).drop_last() =~= c.subrange(0, m));
        lema_primer_campo(c, m + 1, nombre);
    } else {
        assert(c.subrange(0, m) =~= c);
    }
}

/// El campo de nombre visible `nombre`, de cualquier tabla (el primero, si
/// hay varios).
pub fn campo_por_nombre<'a>(campos: &'a [CampoDef], nombre: &str) -> (r: Option<&'a CampoDef>)
    ensures
        match primer_campo(campos@, nombre@) {
            Some(i) => r matches Some(c) && *c == campos@[i],
            None => r is None,
        },
{
    let n = String::from_str(nombre);
    let mut i: usize = 0;
    while i < campos.len()
        invariant
            i <= campos.len(),
            n@ == nombre@,
            primer_campo(campos@.subrange(0, i as int), nombre@) is None,
        decreases campos.len() - i,
    {
        let ghost sub = campos@.subrange(0, i + 1);
        assert(sub.drop_last() =~= campos@.subrange(0, i as int));
        assert(sub.last() == campos@[i as int]);
        if campos[i].nombre == n {
            proof {
                lema_primer_campo(campos@, i + 1, nombre@);
            }
            return Some(&campos[i]);
        }
        i += 1;
    }
    assert(campos@.subrange(0, i as int) =~= campos@);
    None
}

/// Primer campo de la tabla principal de nombre visible `nombre`.
pub open spec fn primer_principal(campos: Seq<CampoDef>, nombre: Seq<char>) -> Option<int>
    decreases campos.len(),
{
    if campos.len() == 0 {
        None
    } else {
        match primer_principal(campos.drop_last(), nombre) {
            Some(i) => Some(i),
            None => if campos.last().nombre@ == nombre && campos.last().tabla == Tabla::Principal {
                Some(campos.len() - 1)
            } else {
                None
            },
        }
    }
}

proof fn lema_primer_principal(c: Seq<CampoDef>, m: int, nombre: Seq<char>)
    requires
        0 <= m <= c.len(),
        primer_principal(c.subrange(0, m), nombre) is Some,
    ensures
        primer_principal(c, nombre) == primer_principal(c.subrange(0, m), nombre),
    decreases c.len() - m,
{
    if m < c.len() {
        assert(c.subrange(0, m + 1).drop_last() =~= c.subrange(0, m));
        lema_primer_principal(c, m + 1, nombre);
    } else {
        assert(c.subrange(0, m) =~= c);
    }
}

/// Resuelve el nombre visible de un nivel a su campo de la tabla principal
/// (el primero, si hay varios).
pub fn resolver<'a>(campos: &'a [CampoDef], nombre: &str) -> (r: Option<&'a CampoDef>)
    ensures
        match primer_principal(campos@, nombre@) {
            Some(i) => r matches Some(c) && *c == campos@[i],
            None => r is None,
        },
{
    let n = String::from_str(nombre);
    let mut i: usize = 0;
    while i < campos.len()
        invariant
            i <= campos.len(),
            n@ == nombre@,
            primer_principal(campos@.subrange(0, i as int), nombre@) is None,
        decreases campos.len() - i,
    {
        let ghost sub = campos@.subrange(0, i + 1);
        assert(sub.drop_last() =~= campos@.subrange(0, i as int));
        assert(sub.last() == campos@[i as int]);
        if campos[i].nombre == n && campos[i].tabla == Tabla::Principal {
            proof {
                lema_primer_principal(campos@, i + 1, nombre@);
            }
            return Some(&campos[i]);
        }
        i += 1;
    }
    assert(campos@.subrange(0, i as int) =~= campos@);
    None
}

/// Posiciones de los campos de `tabla`, en orden.
pub open spec fn posiciones_de_tabla(campos: Seq<CampoDef>, tabla: Tabla) -> Seq<int>
    decreases campos.len(),
{
    if campos.len() == 0 {
        Seq::empty()
    } else {
        let previo = posiciones_de_tabla(campos.drop_last(), tabla);
        if campos.last().tabla == tabla {
            previo.push(campos.len() - 1)
        } else {
            previo
        }
    }
}

/// Referencias a los campos de la tabla `tabla`, en orden.
pub fn campos_de<'a>(campos: &'a [CampoDef], tabla: Tabla) -> (r: Vec<&'a CampoDef>)
    ensures
        r@.len() == posiciones_de_tabla(campos@, tabla).len(),
        forall|k: int|
            0 <= k < r@.len() ==> *(#[trigger] r@[k]) == campos@[posiciones_de_tabla(
                campos@,
                tabla,
            )[k]],
{
    let mut r: Vec<&'a CampoDef> = Vec::new();
    let mut i: usize = 0;
    while i < campos.len()
        invariant
            i <= campos.len(),
            r@.len() == posiciones_de_tabla(campos@.subrange(0, i as int), tabla).len(),
            forall|k: int|
                0 <= k < r@.len() ==> *(#[trigger] r@[k]) == campos@[posiciones_de_tabla(
                    campos@.subrange(0, i as int),
                    tabla,
                )[k]],
        decreases campos.len() - i,
    {
        let ghost sub = campos@.subrange(0, i + 1);
        assert(sub.drop_last() =~= campos@.subrange(0, i as int));
        assert(sub.last() == campos@[i as int]);
        if campos[i].tabla == tabla {
            r.push(&campos[i]);
        }
        i += 1;
    }
    assert(campos@.subrange(0, i as int) =~= campos@);
    r
}

} // verus!
