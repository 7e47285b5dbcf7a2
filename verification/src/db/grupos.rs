//! Grupos jerárquicos: qué campos forman los niveles de un grupo y la
//! consulta que cuenta los valores distintos de un nivel, dados los valores
//! ya elegidos en los niveles superiores. Ejecutar las consultas y anidar los
//! nodos queda fuera de la biblioteca verificada.

use vstd::prelude::*;
use vstd::string::*;
use crate::db::codigos::primer_principal;
use crate::db::query_builder::{unir, unir_exec};
use crate::db::schema::{entero_texto, texto_entero};
use crate::model::{CampoDef, Grupo, TipoCampo};
use crate::texto::cadena;

verus! {

/// Texto con que se guarda un nivel vacío.
pub const NINGUNO: &'static str = "(Ninguno)";

/// Nivel tal como se guarda: su campo, o `(Ninguno)` si no hay.
pub open spec fn nivel_guardado_spec(l: Option<Seq<char>>) -> Seq<char> {
    match l {
        Some(v) => v,
        None => "(Ninguno)"@,
    }
}

/// Texto con que se guarda un nivel opcional.
pub fn nivel_guardado(l: &Option<String>) -> (r: String)
    ensures
        r@ == nivel_guardado_spec(
            match l {
                Some(v) => Some(v@),
                None => None,
            },
        ),
{
    match l {
        Some(v) => v.clone(),
        None => String::from_str(NINGUNO),
    }
}

/// Nivel leído de la base: `(Ninguno)` o vacío no son nivel.
pub open spec fn nivel_leido_spec(s: Option<Seq<char>>) -> Option<Seq<char>> {
    match s {
        Some(v) => if v != "(Ninguno)"@ && v.len() > 0 {
            Some(v)
        } else {
            None
        },
        None => None,
    }
}

/// Nivel de un grupo a partir de lo guardado.
pub fn nivel_leido(s: Option<String>) -> (r: Option<String>)
    ensures
        match nivel_leido_spec(
            match s {
                Some(v) => Some(v@),
                None => None,
            },
        ) {
            Some(v) => r matches Some(x) && x@ == v,
            None => r is None,
        },
{
    match s {
        Some(v) => {
            if v != String::from_str(NINGUNO) && !v.as_str().is_empty() {
                Some(v)
            } else {
                None
            }
        },
        None => None,
    }
}

/// Un nivel guardado se lee igual que era: el texto `(Ninguno)` solo
/// representa la ausencia de nivel (un nivel no puede llamarse así ni estar
/// vacío).
pub proof fn ley_nivel_ida_y_vuelta(l: Option<Seq<char>>)
    requires
        l matches Some(v) ==> v != "(Ninguno)"@ && v.len() > 0,
    ensures
        nivel_leido_spec(Some(nivel_guardado_spec(l))) == l,
{
}

/// Campo de la tabla principal de un nivel por su nombre visible (el primero
/// con ese nombre).
pub open spec fn campo_nivel(campos: Seq<CampoDef>, nombre: Seq<char>) -> Option<CampoDef> {
    match primer_principal(campos, nombre) {
        Some(i) => Some(campos[i]),
        None => None,
    }
}

/// Un nivel opcional como secuencia de cero o un campos.
pub open spec fn nivel_opcional(campos: Seq<CampoDef>, l: Option<String>) -> Seq<CampoDef> {
    match l {
        Some(n) => match campo_nivel(campos, n@) {
            Some(c) => seq![c],
            None => Seq::empty(),
        },
        None => Seq::empty(),
    }
}

/// Campos de los niveles de un grupo que existen, en orden (`por`, `luego1`,
/// `luego2`).
pub open spec fn niveles_spec(campos: Seq<CampoDef>, g: Grupo) -> Seq<CampoDef> {
    let primero = match campo_nivel(campos, g.por@) {
        Some(c) => seq![c],
        None => Seq::empty(),
    };
    primero + nivel_opcional(campos, g.luego1) + nivel_opcional(campos, g.luego2)
}

/// Campos de los niveles de `grupo` que existen en `campos`.
pub fn niveles_de_grupo(campos: &[CampoDef], grupo: &Grupo) -> (r: Vec<CampoDef>)
    ensures
        r@ == niveles_spec(campos@, *grupo),
{
    let mut r: Vec<CampoDef> = Vec::new();
    match crate::db::codigos::resolver(campos, grupo.por.as_str()) {
        Some(c) => r.push(c.copia()),
        None => {},
    }
    let ghost r0 = r@;
    match &grupo.luego1 {
        Some(n) => match crate::db::codigos::resolver(campos, n.as_str()) {
            Some(c) => r.push(c.copia()),
            None => {},
        },
        None => {},
    }
    assert(r@ =~= r0 + nivel_opcional(campos@, grupo.luego1));
    let ghost r1 = r@;
    match &grupo.luego2 {
        Some(n) => match crate::db::codigos::resolver(campos, n.as_str()) {
            Some(c) => r.push(c.copia()),
            None => {},
        },
        None => {},
    }
    assert(r@ =~= r1 + nivel_opcional(campos@, grupo.luego2));
    r
}

/// Condición de un nivel superior ya fijado.
pub open spec fn condicion_nivel(c: CampoDef) -> Seq<char> {
    if c.tipo == TipoCampo::Multidato {
        "EXISTS (SELECT 1 FROM multidatos mf WHERE mf.reg_id = principal._id_ AND mf.campo_id = "@
            + entero_texto(c.id as int) + " AND mf.principal = 1 AND mf.valor = ?)"@
    } else {
        "CAST(principal."@ + c.col_fisica@ + " AS TEXT) = ?"@
    }
}

/// Consulta de los valores distintos del nivel `campo` (con el número de
/// registros de cada uno), restringida a los valores fijados en los niveles
/// superiores (`filtros`), y los valores a enlazar a sus `?`.
pub open spec fn sql_nivel_spec(campo: CampoDef, filtros: Seq<(CampoDef, Seq<char>)>) -> (
    Seq<char>,
    Seq<Seq<char>>,
) {
    let (extra, expr) = if campo.tipo == TipoCampo::Multidato {
        (
            " JOIN multidatos mg ON mg.reg_id = principal._id_ AND mg.campo_id = "@ + entero_texto(
                campo.id as int,
            ) + " AND mg.principal = 1"@,
            "mg.valor"@,
        )
    } else {
        (Seq::empty(), "CAST(principal."@ + campo.col_fisica@ + " AS TEXT)"@)
    };
    let condiciones = filtros.map_values(|f: (CampoDef, Seq<char>)| condicion_nivel(f.0));
    let donde = if filtros.len() == 0 {
        Seq::empty()
    } else {
        " WHERE "@ + unir(condiciones, " AND "@)
    };
    (
        "SELECT "@ + expr + " AS v, COUNT(DISTINCT principal._id_) AS n FROM principal"@ + extra
            + donde + " GROUP BY v ORDER BY v COLLATE NOCASE"@,
        filtros.map_values(|f: (CampoDef, Seq<char>)| f.1),
    )
}

/// Vista de los filtros de niveles superiores.
pub open spec fn vista_filtros(f: Seq<(CampoDef, String)>) -> Seq<(CampoDef, Seq<char>)> {
    f.map_values(|x: (CampoDef, String)| (x.0, x.1@))
}

/// Consulta de un nivel del árbol de un grupo y sus parámetros.
pub fn sql_nivel(campo: &CampoDef, filtros: &[(CampoDef, String)]) -> (r: (String, Vec<String>))
    ensures
        (r.0@, r.1@.map_values(|s: String| s@)) == sql_nivel_spec(*campo, vista_filtros(filtros@)),
{
    let ghost vf = vista_filtros(filtros@);
    let mut extra = String::new();
    let mut expr = String::new();
    if campo.tipo == TipoCampo::Multidato {
        extra.append(" JOIN multidatos mg ON mg.reg_id = principal._id_ AND mg.campo_id = ");
        extra.append(cadena(texto_entero(campo.id).as_slice()).as_str());
        extra.append(" AND mg.principal = 1");
        expr.append("mg.valor");
    } else {
        expr.append("CAST(principal.");
        expr.append(campo.col_fisica.as_str());
        expr.append(" AS TEXT)");
    }
    let mut condiciones: Vec<String> = Vec::new();
    let mut binds: Vec<String> = Vec::new();
    let mut i: usize = 0;
    while i < filtros.len()
        invariant
            i <= filtros@.len(),
            vf == vista_filtros(filtros@),
            condiciones@.map_values(|s: String| s@) == vf.subrange(0, i as int).map_values(
                |f: (CampoDef, Seq<char>)| condicion_nivel(f.0),
            ),
            binds@.map_values(|s: String| s@) == vf.subrange(0, i as int).map_values(
                |f: (CampoDef, Seq<char>)| f.1,
            ),
        decreases filtros.len() - i,
    {
        let c = &filtros[i].0;
        let mut parte = String::new();
        if c.tipo == TipoCampo::Multidato {
            parte.append(
                "EXISTS (SELECT 1 FROM multidatos mf WHERE mf.reg_id = principal._id_ AND mf.campo_id = ",
            );
            parte.append(cadena(texto_entero(c.id).as_slice()).as_str());
            parte.append(" AND mf.principal = 1 AND mf.valor = ?)");
        } else {
            parte.append("CAST(principal.");
            parte.append(c.col_fisica.as_str());
            parte.append(" AS TEXT) = ?");
        }
        assert(parte@ == condicion_nivel(vf[i as int].0));
        let ghost pc = condiciones@.map_values(|s: String| s@);
        let ghost pb = binds@.map_values(|s: String| s@);
        condiciones.push(parte);
        binds.push(filtros[i].1.clone());
        assert(condiciones@.map_values(|s: String| s@) =~= pc.push(condicion_nivel(vf[i as int].0)));
        assert(binds@.map_values(|s: String| s@) =~= pb.push(vf[i as int].1));
        assert(vf.subrange(0, i + 1).map_values(|f: (CampoDef, Seq<char>)| condicion_nivel(f.0))
            =~= vf.subrange(0, i as int).map_values(|f: (CampoDef, Seq<char>)| condicion_nivel(f.0)).push(
            condicion_nivel(vf[i as int].0),
        ));
        assert(vf.subrange(0, i + 1).map_values(|f: (CampoDef, Seq<char>)| f.1) =~= vf.subrange(
            0,
            i as int,
        ).map_values(|f: (CampoDef, Seq<char>)| f.1).push(vf[i as int].1));
        i += 1;
    }
    assert(vf.subrange(0, i as int) =~= vf);
    let mut sql = String::from_str("SELECT ");
    sql.append(expr.as_str());
    sql.append(" AS v, COUNT(DISTINCT principal._id_) AS n FROM principal");
    sql.append(extra.as_str());
    if filtros.len() > 0 {
        sql.append(" WHERE ");
        sql.append(unir_exec(&condiciones, " AND ").as_str());
    }
    sql.append(" GROUP BY v ORDER BY v COLLATE NOCASE");
    (sql, binds)
}

} // verus!
