//! Sentencias de lectura de registros: la ventana paginada de la grilla, el
//! conteo, los ids filtrados, los totales y las estadísticas de los campos
//! numéricos, todas sobre los fragmentos que da la construcción segura de
//! consultas; y la que marca registros como ocultos. Ejecutarlas y leer sus filas queda fuera de la biblioteca
//! verificada.

use vstd::prelude::*;
use vstd::string::*;
use crate::db::codigos::primer_campo;
use crate::db::query_builder::{unir, unir_exec, Construido};
use crate::db::schema::{entero_texto, texto_entero};
use crate::model::{nombre_tabla_spec, CampoDef, Grupo, SeleccionGrupo, Tabla, TipoCampo};
use crate::texto::cadena;

verus! {

// ---------------------------------------------------------------------------
// Niveles del grupo activo
// ---------------------------------------------------------------------------

/// Valor elegido en el nivel `i` de la selección, si lo hay.
pub open spec fn elegido(valores: Seq<Option<String>>, i: int) -> Option<Seq<char>> {
    if 0 <= i < valores.len() {
        match valores[i] {
            Some(v) => Some(v@),
            None => None,
        }
    } else {
        None
    }
}

/// Un nivel seleccionado: su campo (el primero con ese nombre) con el valor
/// elegido, si el nivel tiene nombre, valor elegido y campo.
pub open spec fn nivel_sel(campos: Seq<CampoDef>, nombre: Option<Seq<char>>, valor: Option<Seq<char>>) -> Seq<(CampoDef, Seq<char>)> {
    match (nombre, valor) {
        (Some(n), Some(v)) => match primer_campo(campos, n) {
            Some(i) => seq![(campos[i], v)],
            None => Seq::empty(),
        },
        _ => Seq::empty(),
    }
}

/// Pares (campo, valor) de los niveles elegidos del grupo, en orden.
pub open spec fn niveles_sel_spec(campos: Seq<CampoDef>, g: Grupo, sel: Seq<Option<String>>) -> Seq<(CampoDef, Seq<char>)> {
    nivel_sel(campos, Some(g.por@), elegido(sel, 0)) + nivel_sel(
        campos,
        match g.luego1 {
            Some(s) => Some(s@),
            None => None,
        },
        elegido(sel, 1),
    ) + nivel_sel(
        campos,
        match g.luego2 {
            Some(s) => Some(s@),
            None => None,
        },
        elegido(sel, 2),
    )
}

/// Valor elegido en el nivel `i`.
fn elegido_exec(valores: &Vec<Option<String>>, i: usize) -> (r: Option<String>)
    ensures
        match elegido(valores@, i as int) {
            Some(v) => r matches Some(x) && x@ == v,
            None => r is None,
        },
{
    if i < valores.len() {
        match &valores[i] {
            Some(v) => Some(v.clone()),
            None => None,
        }
    } else {
        None
    }
}

/// Añade el nivel de nombre `nombre` si tiene valor elegido y campo.
fn empujar_nivel(campos: &[CampoDef], nombre: Option<&String>, valor: Option<String>, out: &mut Vec<(CampoDef, String)>)
    ensures
        final(out)@.map_values(|x: (CampoDef, String)| (x.0, x.1@)) == old(out)@.map_values(
            |x: (CampoDef, String)| (x.0, x.1@),
        ) + nivel_sel(
            campos@,
            match nombre {
                Some(n) => Some(n@),
                None => None,
            },
            match valor {
                Some(v) => Some(v@),
                None => None,
            },
        ),
{
    let ghost antes = out@.map_values(|x: (CampoDef, String)| (x.0, x.1@));
    match (nombre, valor) {
        (Some(n), Some(v)) => match crate::db::codigos::campo_por_nombre(campos, n.as_str()) {
            Some(c) => {
                let par = (c.copia(), v);
                out.push(par);
                assert(out@.map_values(|x: (CampoDef, String)| (x.0, x.1@)) =~= antes + seq![
                    (par.0, par.1@),
                ]);
            },
            None => {
                assert(antes + Seq::<(CampoDef, Seq<char>)>::empty() =~= antes);
            },
        },
        _ => {
            assert(antes + Seq::<(CampoDef, Seq<char>)>::empty() =~= antes);
        },
    }
}

/// Campos y valores de los niveles elegidos del grupo activo.
pub fn niveles_seleccionados(campos: &[CampoDef], grupo: &Grupo, sel: &SeleccionGrupo) -> (r: Vec<(CampoDef, String)>)
    ensures
        r@.map_values(|x: (CampoDef, String)| (x.0, x.1@)) == niveles_sel_spec(campos@, *grupo, sel.valores@),
{
    let mut out: Vec<(CampoDef, String)> = Vec::new();
    assert(out@.map_values(|x: (CampoDef, String)| (x.0, x.1@)) =~= Seq::<(CampoDef, Seq<char>)>::empty());
    empujar_nivel(campos, Some(&grupo.por), elegido_exec(&sel.valores, 0), &mut out);
    let l1 = match &grupo.luego1 {
        Some(s) => Some(s),
        None => None,
    };
    empujar_nivel(campos, l1, elegido_exec(&sel.valores, 1), &mut out);
    let l2 = match &grupo.luego2 {
        Some(s) => Some(s),
        None => None,
    };
    empujar_nivel(campos, l2, elegido_exec(&sel.valores, 2), &mut out);
    assert(out@.map_values(|x: (CampoDef, String)| (x.0, x.1@)) =~= niveles_sel_spec(
        campos@,
        *grupo,
        sel.valores@,
    ));
    out
}

// ---------------------------------------------------------------------------
// Ventana, conteo e ids
// ---------------------------------------------------------------------------

/// ` WHERE <w>`, o nada si no hay condiciones.
pub open spec fn donde_spec(w: Seq<char>) -> Seq<char> {
    if w.len() == 0 {
        Seq::empty()
    } else {
        " WHERE "@ + w
    }
}

fn donde(w: &String) -> (r: String)
    ensures
        r@ == donde_spec(w@),
{
    if w.as_str().is_empty() {
        String::new()
    } else {
        let mut s = String::from_str(" WHERE ");
        s.append(w.as_str());
        s
    }
}

/// `SELECT COUNT(*)` del conjunto filtrado.
pub open spec fn conteo_spec(t: Seq<char>, join: Seq<char>, w: Seq<char>) -> Seq<char> {
    "SELECT COUNT(*) FROM "@ + t + join + donde_spec(w)
}

/// Conteo de los registros de `tabla` que cumplen los fragmentos `c`.
pub fn sql_conteo(tabla: Tabla, c: &Construido) -> (r: String)
    ensures
        r@ == conteo_spec(nombre_tabla_spec(tabla), c.join_sql@, c.where_sql@),
{
    let mut s = String::from_str("SELECT COUNT(*) FROM ");
    s.append(tabla.nombre());
    s.append(c.join_sql.as_str());
    s.append(donde(&c.where_sql).as_str());
    s
}

/// Ids del conjunto filtrado, en el orden pedido.
pub open spec fn ids_spec(t: Seq<char>, join: Seq<char>, w: Seq<char>, orden: Seq<char>) -> Seq<char> {
    "SELECT "@ + t + "._id_ FROM "@ + t + join + donde_spec(w) + " ORDER BY "@ + orden
}

/// Ids de todos los registros de `tabla` que cumplen los fragmentos `c`.
pub fn sql_ids(tabla: Tabla, c: &Construido) -> (r: String)
    ensures
        r@ == ids_spec(nombre_tabla_spec(tabla), c.join_sql@, c.where_sql@, c.order_sql@),
{
    let t = tabla.nombre();
    let mut s = String::from_str("SELECT ");
    s.append(t);
    s.append("._id_ FROM ");
    s.append(t);
    s.append(c.join_sql.as_str());
    s.append(donde(&c.where_sql).as_str());
    s.append(" ORDER BY ");
    s.append(c.order_sql.as_str());
    s
}

/// Campos de la tabla `tabla`, en orden.
pub open spec fn de_tabla(campos: Seq<CampoDef>, tabla: Tabla) -> Seq<CampoDef>
    decreases campos.len(),
{
    if campos.len() == 0 {
        Seq::empty()
    } else {
        let previo = de_tabla(campos.drop_last(), tabla);
        if campos.last().tabla == tabla {
            previo.push(campos.last())
        } else {
            previo
        }
    }
}

/// Columna leída para un campo en la grilla: la columna física, o para un
/// multidato sus valores unidos por ` · `.
pub open spec fn columna_grilla(t: Seq<char>, principal: bool, c: CampoDef) -> Seq<char> {
    if c.tipo == TipoCampo::Multidato {
        "(SELECT group_concat(m.valor, ' · ') FROM multidatos m WHERE m.reg_id = "@ + t
            + "._id_ AND m.campo_id = "@ + entero_texto(c.id as int) + " AND m.principal = "@ + (
        if principal {
            "1"@
        } else {
            "0"@
        }) + ")"@
    } else {
        t + "."@ + c.col_fisica@
    }
}

/// Columnas de la ventana: id, imagen, versión de la imagen, marca de
/// variantes (`0` en variantes), marca de oculto y una por campo de la tabla.
pub open spec fn columnas_pagina(campos: Seq<CampoDef>, tabla: Tabla) -> Seq<Seq<char>> {
    let t = nombre_tabla_spec(tabla);
    let p = tabla == Tabla::Principal;
    seq![
        t + "._id_"@,
        t + "._imagen_"@,
        t + "._imagen_version_"@,
        if p {
            t + "._variantes_"@
        } else {
            "0"@
        },
        t + "._auxiliar_"@,
    ] + de_tabla(campos, tabla).map_values(|c: CampoDef| columna_grilla(t, p, c))
}

/// Ventana de la grilla: columnas, conjunto filtrado, orden y `LIMIT ? OFFSET ?`.
pub open spec fn pagina_spec(campos: Seq<CampoDef>, tabla: Tabla, join: Seq<char>, w: Seq<char>, orden: Seq<char>) -> Seq<char> {
    "SELECT "@ + unir(columnas_pagina(campos, tabla), ", "@) + " FROM "@ + nombre_tabla_spec(tabla)
        + join + donde_spec(w) + " ORDER BY "@ + orden + " LIMIT ? OFFSET ?"@
}

fn columna_grilla_exec(t: &str, principal: bool, c: &CampoDef) -> (r: String)
    ensures
        r@ == columna_grilla(t@, principal, *c),
{
    if c.tipo == TipoCampo::Multidato {
        let mut s = String::from_str(
            "(SELECT group_concat(m.valor, ' · ') FROM multidatos m WHERE m.reg_id = ",
        );
        s.append(t);
        s.append("._id_ AND m.campo_id = ");
        s.append(cadena(texto_entero(c.id).as_slice()).as_str());
        s.append(" AND m.principal = ");
        s.append(
            if principal {
                "1"
            } else {
                "0"
            },
        );
        s.append(")");
        s
    } else {
        let mut s = String::from_str(t);
        s.append(".");
        s.append(c.col_fisica.as_str());
        s
    }
}

fn con_sufijo(t: &str, sufijo: &str) -> (r: String)
    ensures
        r@ == t@ + sufijo@,
{
    let mut s = String::from_str(t);
    s.append(sufijo);
    s
}

/// Sentencia de la ventana de registros de `tabla` que cumplen `c`.
pub fn sql_pagina(campos: &[CampoDef], tabla: Tabla, c: &Construido) -> (r: String)
    ensures
        r@ == pagina_spec(campos@, tabla, c.join_sql@, c.where_sql@, c.order_sql@),
{
    let t = tabla.nombre();
    let p = tabla == Tabla::Principal;
    let mut cols: Vec<String> = Vec::new();
    cols.push(con_sufijo(t, "._id_"));
    cols.push(con_sufijo(t, "._imagen_"));
    cols.push(con_sufijo(t, "._imagen_version_"));
    if p {
        cols.push(con_sufijo(t, "._variantes_"));
    } else {
        cols.push(String::from_str("0"));
    }
    cols.push(con_sufijo(t, "._auxiliar_"));
    let ghost fijas = cols@.map_values(|s: String| s@);
    let mut i: usize = 0;
    while i < campos.len()
        invariant
            i <= campos@.len(),
            t@ == nombre_tabla_spec(tabla),
            p == (tabla == Tabla::Principal),
            cols@.map_values(|s: String| s@) == fijas + de_tabla(campos@.subrange(0, i as int), tabla).map_values(
                |c: CampoDef| columna_grilla(t@, p, c),
            ),
        decreases campos.len() - i,
    {
        let ghost sub = campos@.subrange(0, i + 1);
        assert(sub.drop_last() =~= campos@.subrange(0, i as int));
        let ghost antes = cols@.map_values(|s: String| s@);
        if campos[i].tabla == tabla {
            let col = columna_grilla_exec(t, p, &campos[i]);
            cols.push(col);
            assert(cols@.map_values(|s: String| s@) =~= antes.push(col@));
            assert(de_tabla(sub, tabla) == de_tabla(campos@.subrange(0, i as int), tabla).push(campos@[i as int]));
        }
        i += 1;
        assert(cols@.map_values(|s: String| s@) =~= fijas + de_tabla(campos@.subrange(0, i as int), tabla).map_values(
            |c: CampoDef| columna_grilla(t@, p, c),
        ));
    }
    assert(campos@.subrange(0, i as int) =~= campos@);
    assert(cols@.map_values(|s: String| s@) =~= columnas_pagina(campos@, tabla));
    let mut s = String::from_str("SELECT ");
    s.append(unir_exec(&cols, ", ").as_str());
    s.append(" FROM ");
    s.append(t);
    s.append(c.join_sql.as_str());
    s.append(donde(&c.where_sql).as_str());
    s.append(" ORDER BY ");
    s.append(c.order_sql.as_str());
    s.append(" LIMIT ? OFFSET ?");
    s
}

// ---------------------------------------------------------------------------
// Estadísticas
// ---------------------------------------------------------------------------

/// Ventana de la mediana sobre `cuenta` valores ordenados: cuántos tomar y
/// desde cuál (el central si son impares, los dos centrales si son pares).
pub open spec fn ventana_mediana_spec(cuenta: int) -> (int, int) {
    (2 - cuenta % 2, (cuenta - 1) / 2)
}

/// La ventana de la mediana está centrada: deja a cada lado el mismo número
/// de valores, toma uno si la cuenta es impar y dos si es par.
pub proof fn ley_mediana_centrada(cuenta: int)
    requires
        cuenta >= 1,
    ensures
        ({
            let (lim, off) = ventana_mediana_spec(cuenta);
            &&& off >= 0
            &&& off + lim <= cuenta
            &&& off == cuenta - (off + lim)
            &&& (lim == 1) == (cuenta % 2 == 1)
        }),
{
}

/// Cuántos valores tomar y desde cuál para la mediana de `cuenta` valores.
pub fn ventana_mediana(cuenta: i64) -> (r: (i64, i64))
    requires
        cuenta >= 1,
    ensures
        (r.0 as int, r.1 as int) == ventana_mediana_spec(cuenta as int),
{
    (2 - cuenta % 2, (cuenta - 1) / 2)
}

/// Campos numéricos pedidos para las estadísticas: para cada nombre, el
/// primer campo con ese nombre, si es de la tabla consultada y numérico
/// (número, moneda o calculado).
pub open spec fn numericos_spec(campos: Seq<CampoDef>, tabla: Tabla, sel: Seq<Seq<char>>) -> Seq<CampoDef>
    decreases sel.len(),
{
    if sel.len() == 0 {
        Seq::empty()
    } else {
        let previo = numericos_spec(campos, tabla, sel.drop_last());
        match primer_campo(campos, sel.last()) {
            Some(i) => {
                let c = campos[i];
                if c.tabla == tabla && (c.tipo == TipoCampo::Numerico || c.tipo == TipoCampo::Moneda
                    || c.tipo == TipoCampo::Calculado) {
                    previo.push(c)
                } else {
                    previo
                }
            },
            None => previo,
        }
    }
}

/// Campos numéricos de la tabla entre los nombres pedidos.
pub fn campos_numericos(campos: &[CampoDef], tabla: Tabla, seleccion: &[String]) -> (r: Vec<CampoDef>)
    ensures
        r@ == numericos_spec(campos@, tabla, seleccion@.map_values(|s: String| s@)),
{
    let ghost vs = seleccion@.map_values(|s: String| s@);
    let mut r: Vec<CampoDef> = Vec::new();
    let mut i: usize = 0;
    while i < seleccion.len()
        invariant
            i <= seleccion@.len(),
            vs == seleccion@.map_values(|s: String| s@),
            r@ == numericos_spec(campos@, tabla, vs.subrange(0, i as int)),
        decreases seleccion.len() - i,
    {
        let ghost sub = vs.subrange(0, i + 1);
        assert(sub.drop_last() =~= vs.subrange(0, i as int));
        assert(sub.last() == seleccion@[i as int]@);
        match crate::db::codigos::campo_por_nombre(campos, seleccion[i].as_str()) {
            Some(c) => {
                if c.tabla == tabla && (c.tipo == TipoCampo::Numerico || c.tipo == TipoCampo::Moneda
                    || c.tipo == TipoCampo::Calculado) {
                    r.push(c.copia());
                }
            },
            None => {},
        }
        i += 1;
    }
    assert(vs.subrange(0, i as int) =~= vs);
    r
}

/// Sentencias de las estadísticas de un campo: agregados (cuenta, suma,
/// media, mínimo, máximo), mediana con la ventana dada y moda (el valor más
/// repetido; a igualdad, el menor).
pub open spec fn estadisticas_spec(
    t: Seq<char>,
    join: Seq<char>,
    w: Seq<char>,
    c: CampoDef,
    lim: int,
    off: int,
) -> (Seq<char>, Seq<char>, Seq<char>) {
    let col = t + "."@ + c.col_fisica@;
    let no_nulo = if w.len() == 0 {
        " WHERE "@ + col + " IS NOT NULL"@
    } else {
        donde_spec(w) + " AND "@ + col + " IS NOT NULL"@
    };
    (
        "SELECT COUNT("@ + col + "), COALESCE(SUM("@ + col + "), 0), AVG("@ + col + "), MIN("@ + col
            + "), MAX("@ + col + ") FROM "@ + t + join + donde_spec(w),
        "SELECT AVG(v) FROM (SELECT "@ + col + " AS v FROM "@ + t + join + no_nulo + " ORDER BY "@
            + col + " LIMIT "@ + entero_texto(lim) + " OFFSET "@ + entero_texto(off) + ")"@,
        "SELECT "@ + col + ", COUNT(*) AS c FROM "@ + t + join + no_nulo + " GROUP BY "@ + col
            + " ORDER BY c DESC, "@ + col + " ASC LIMIT 1"@,
    )
}

/// Sentencias de agregados, mediana y moda del campo `campo` sobre el
/// conjunto filtrado; `lim` y `off` son la ventana de la mediana.
pub fn sql_estadisticas(tabla: Tabla, c: &Construido, campo: &CampoDef, lim: i64, off: i64) -> (r: (String, String, String))
    ensures
        (r.0@, r.1@, r.2@) == estadisticas_spec(
            nombre_tabla_spec(tabla),
            c.join_sql@,
            c.where_sql@,
            *campo,
            lim as int,
            off as int,
        ),
{
    let t = tabla.nombre();
    let mut col = String::from_str(t);
    col.append(".");
    col.append(campo.col_fisica.as_str());
    let w = donde(&c.where_sql);
    let mut no_nulo = String::new();
    if c.where_sql.as_str().is_empty() {
        no_nulo.append(" WHERE ");
    } else {
        no_nulo.append(w.as_str());
        no_nulo.append(" AND ");
    }
    no_nulo.append(col.as_str());
    no_nulo.append(" IS NOT NULL");
    let col = col.as_str();
    let mut agr = String::from_str("SELECT COUNT(");
    agr.append(col);
    agr.append("), COALESCE(SUM(");
    agr.append(col);
    agr.append("), 0), AVG(");
    agr.append(col);
    agr.append("), MIN(");
    agr.append(col);
    agr.append("), MAX(");
    agr.append(col);
    agr.append(") FROM ");
    agr.append(t);
    agr.append(c.join_sql.as_str());
    agr.append(w.as_str());
    let mut med = String::from_str("SELECT AVG(v) FROM (SELECT ");
    med.append(col);
    med.append(" AS v FROM ");
    med.append(t);
    med.append(c.join_sql.as_str());
    med.append(no_nulo.as_str());
    med.append(" ORDER BY ");
    med.append(col);
    med.append(" LIMIT ");
    med.append(cadena(texto_entero(lim).as_slice()).as_str());
    med.append(" OFFSET ");
    med.append(cadena(texto_entero(off).as_slice()).as_str());
    med.append(")");
    let mut moda = String::from_str("SELECT ");
    moda.append(col);
    moda.append(", COUNT(*) AS c FROM ");
    moda.append(t);
    moda.append(c.join_sql.as_str());
    moda.append(no_nulo.as_str());
    moda.append(" GROUP BY ");
    moda.append(col);
    moda.append(" ORDER BY c DESC, ");
    moda.append(col);
    moda.append(" ASC LIMIT 1");
    (agr, med, moda)
}

// ---------------------------------------------------------------------------
// Totales
// ---------------------------------------------------------------------------

/// Campos que se totalizan: los de la tabla marcados como totalizables que
/// no son texto ni multidato.
pub open spec fn totalizables_spec(campos: Seq<CampoDef>, tabla: Tabla) -> Seq<CampoDef>
    decreases campos.len(),
{
    if campos.len() == 0 {
        Seq::empty()
    } else {
        let previo = totalizables_spec(campos.drop_last(), tabla);
        let c = campos.last();
        if c.tabla == tabla && c.totalizable && c.tipo != TipoCampo::Multidato && c.tipo
            != TipoCampo::Texto {
            previo.push(c)
        } else {
            previo
        }
    }
}

/// Sentencia de los totales: el conteo y la suma (0 si no hay valores) de
/// cada campo totalizable.
pub open spec fn totalizar_spec(campos: Seq<CampoDef>, tabla: Tabla, join: Seq<char>, w: Seq<char>) -> Seq<char> {
    let t = nombre_tabla_spec(tabla);
    "SELECT "@ + unir(
        seq!["COUNT(*)"@] + totalizables_spec(campos, tabla).map_values(
            |c: CampoDef| "COALESCE(SUM("@ + t + "."@ + c.col_fisica@ + "), 0)"@,
        ),
        ", "@,
    ) + " FROM "@ + t + join + donde_spec(w)
}

/// Campos totalizables de la tabla y la sentencia que los suma sobre el
/// conjunto filtrado.
pub fn sql_totalizar(campos: &[CampoDef], tabla: Tabla, c: &Construido) -> (r: (Vec<CampoDef>, String))
    ensures
        r.0@ == totalizables_spec(campos@, tabla),
        r.1@ == totalizar_spec(campos@, tabla, c.join_sql@, c.where_sql@),
{
    let t = tabla.nombre();
    let mut tot: Vec<CampoDef> = Vec::new();
    let mut cols: Vec<String> = Vec::new();
    cols.push(String::from_str("COUNT(*)"));
    let ghost f = |x: CampoDef| "COALESCE(SUM("@ + t@ + "."@ + x.col_fisica@ + "), 0)"@;
    proof {
        reveal_strlit("COUNT(*)");
    }
    assert(cols@.map_values(|s: String| s@) =~= seq!["COUNT(*)"@]);
    let mut i: usize = 0;
    while i < campos.len()
        invariant
            i <= campos@.len(),
            t@ == nombre_tabla_spec(tabla),
            f == (|x: CampoDef| "COALESCE(SUM("@ + t@ + "."@ + x.col_fisica@ + "), 0)"@),
            tot@ == totalizables_spec(campos@.subrange(0, i as int), tabla),
            cols@.map_values(|s: String| s@) == seq!["COUNT(*)"@] + tot@.map_values(f),
        decreases campos.len() - i,
    {
        let ghost sub = campos@.subrange(0, i + 1);
        assert(sub.drop_last() =~= campos@.subrange(0, i as int));
        let x = &campos[i];
        if x.tabla == tabla && x.totalizable && x.tipo != TipoCampo::Multidato && x.tipo
            != TipoCampo::Texto {
            let ghost antes = cols@.map_values(|s: String| s@);
            let ghost tantes = tot@;
            let mut s = String::from_str("COALESCE(SUM(");
            s.append(t);
            s.append(".");
            s.append(x.col_fisica.as_str());
            s.append("), 0)");
            cols.push(s);
            tot.push(x.copia());
            assert(cols@.map_values(|s: String| s@) =~= antes.push(s@));
            assert(tot@.map_values(f) =~= tantes.map_values(f).push(f(*x)));
        }
        i += 1;
    }
    assert(campos@.subrange(0, i as int) =~= campos@);
    let mut s = String::from_str("SELECT ");
    s.append(unir_exec(&cols, ", ").as_str());
    s.append(" FROM ");
    s.append(t);
    s.append(c.join_sql.as_str());
    s.append(donde(&c.where_sql).as_str());
    assert(tot@.map_values(f) =~= totalizables_spec(campos@, tabla).map_values(
        |x: CampoDef| "COALESCE(SUM("@ + nombre_tabla_spec(tabla) + "."@ + x.col_fisica@ + "), 0)"@,
    ));
    (tot, s)
}

// ---------------------------------------------------------------------------
// Registros ocultos
// ---------------------------------------------------------------------------

/// `?, ?, …` con `n` marcadores.
pub open spec fn marcas(n: nat) -> Seq<char>
    decreases n,
{
    if n == 0 {
        Seq::empty()
    } else if n == 1 {
        "?"@
    } else {
        marcas((n - 1) as nat) + ", ?"@
    }
}

/// Sentencia que marca (o desmarca) como ocultos `n` registros de `tabla`:
/// el primer parámetro es la marca; los siguientes, los ids.
pub open spec fn auxiliar_spec(tabla: Tabla, n: nat) -> Seq<char> {
    "UPDATE "@ + nombre_tabla_spec(tabla) + " SET _auxiliar_ = ?1 WHERE _id_ IN ("@ + marcas(n) + ")"@
}

/// La sentencia que cambia la marca de oculto de `n` registros.
pub fn sql_auxiliar(tabla: Tabla, n: usize) -> (r: String)
    ensures
        r@ == auxiliar_spec(tabla, n as nat),
{
    let mut m = String::new();
    let mut i: usize = 0;
    proof {
        reveal_strlit("?");
        reveal_strlit(", ?");
    }
    while i < n
        invariant
            i <= n,
            m@ == marcas(i as nat),
        decreases n - i,
    {
        if i == 0 {
            m.append("?");
        } else {
            m.append(", ?");
        }
        i += 1;
    }
    let mut s = String::from_str("UPDATE ");
    s.append(tabla.nombre());
    s.append(" SET _auxiliar_ = ?1 WHERE _id_ IN (");
    s.append(m.as_str());
    s.append(")");
    s
}

} // verus!
