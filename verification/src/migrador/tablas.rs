//! Interpretación de las tablas auxiliares del álbum de origen (grupos,
//! categorías, filtros avanzados y valores de multidatos): qué se guarda en
//! el álbum nuevo y qué avisos se dan. Escribirlo en la base queda fuera de
//! la biblioteca verificada.

use vstd::prelude::*;
use vstd::string::*;
use crate::migrador::csv_parser::{posicion_columna, vista_fila, TablaCsv};
use crate::migrador::migrar::{
    campo_de_id, id_de_nombre, mapear_op_comp, mapear_op_rel, op_comp_spec, op_rel_spec,
    minusculas_unicode, mayusculas_unicode, Contexto,
};
use crate::migrador::registros::o_bien;
use crate::migrador::type_map::{entero_de, entero_spec, jet_bool, jet_bool_spec};
use crate::model::{CondicionFiltro, Grupo, OpComp, OpRel};
use crate::texto::{cadena, caracteres, igual_sin_caja, iguales_sin_caja, recortado, recortar};

verus! {

/// Texto de la celda `i`, sin blancos en los extremos (vacío si la fila no
/// la tiene).
pub open spec fn texto_en(fila: Seq<Seq<char>>, i: int) -> Seq<char> {
    if 0 <= i < fila.len() {
        recortado(fila[i])
    } else {
        Seq::empty()
    }
}

/// Celda `i` de la fila tal cual, si la columna existe y la fila la tiene.
pub open spec fn celda_opt(fila: Seq<Seq<char>>, i: Option<int>) -> Option<Seq<char>> {
    match i {
        Some(k) => if 0 <= k < fila.len() {
            Some(fila[k])
        } else {
            None
        },
        None => None,
    }
}

/// Texto de una celda, recortado.
fn texto_celda(fila: &Vec<String>, i: usize) -> (r: String)
    ensures
        r@ == texto_en(vista_fila(fila@), i as int),
{
    if i < fila.len() {
        cadena(recortar(&caracteres(fila[i].as_str())).as_slice())
    } else {
        String::new()
    }
}

/// Celda opcional de una fila.
fn celda_fila<'a>(fila: &'a Vec<String>, i: Option<usize>) -> (r: Option<&'a String>)
    ensures
        match celda_opt(
            vista_fila(fila@),
            match i {
                Some(k) => Some(k as int),
                None => None,
            },
        ) {
            Some(t) => r matches Some(x) && x@ == t,
            None => r is None,
        },
{
    match i {
        Some(k) => if k < fila.len() {
            Some(&fila[k])
        } else {
            None
        },
        None => None,
    }
}

/// Booleano de una celda opcional, o `defecto` si no la hay.
pub open spec fn bool_celda(c: Option<Seq<char>>, defecto: bool) -> bool {
    match c {
        Some(s) => jet_bool_spec(s),
        None => defecto,
    }
}

fn bool_de_celda(c: Option<&String>, defecto: bool) -> (r: bool)
    ensures
        r == bool_celda(
            match c {
                Some(t) => Some(t@),
                None => None,
            },
            defecto,
        ),
{
    match c {
        Some(s) => jet_bool(s.as_str()),
        None => defecto,
    }
}

/// Índice opcional como entero.
pub open spec fn ix(o: Option<usize>) -> Option<int> {
    match o {
        Some(k) => Some(k as int),
        None => None,
    }
}

// ---------------------------------------------------------------------------
// Grupos
// ---------------------------------------------------------------------------

/// Nivel de un grupo: el texto recortado, salvo vacío o `(Ninguno)` (sin
/// distinguir mayúsculas), que no cuentan como nivel.
pub open spec fn nivel_spec(c: Option<Seq<char>>) -> Option<Seq<char>> {
    match c {
        Some(t) => {
            let v = recortado(t);
            if v.len() == 0 || igual_sin_caja(v, "(Ninguno)"@) {
                None
            } else {
                Some(v)
            }
        },
        None => None,
    }
}

fn nivel_de(c: Option<&String>) -> (r: Option<String>)
    ensures
        match nivel_spec(
            match c {
                Some(t) => Some(t@),
                None => None,
            },
        ) {
            Some(v) => r matches Some(s) && s@ == v,
            None => r is None,
        },
{
    match c {
        Some(t) => {
            let v = recortar(&caracteres(t.as_str()));
            if v.len() == 0 || iguales_sin_caja(&v, &caracteres("(Ninguno)")) {
                None
            } else {
                Some(cadena(v.as_slice()))
            }
        },
        None => None,
    }
}

/// Vista de un grupo sin su id (los grupos leídos aún no lo tienen: es 0).
pub open spec fn vista_grupo(g: Grupo) -> (Seq<char>, Seq<char>, Option<Seq<char>>, Option<Seq<char>>) {
    (
        g.nombre@,
        g.por@,
        match g.luego1 {
            Some(s) => Some(s@),
            None => None,
        },
        match g.luego2 {
            Some(s) => Some(s@),
            None => None,
        },
    )
}

/// Grupos de las filas: las que tienen nombre y primer nivel, con sus
/// niveles siguientes.
pub open spec fn grupos_spec(
    filas: Seq<Seq<Seq<char>>>,
    i_nombre: int,
    i_por: int,
    i_l1: Option<int>,
    i_l2: Option<int>,
) -> Seq<(Seq<char>, Seq<char>, Option<Seq<char>>, Option<Seq<char>>)>
    decreases filas.len(),
{
    if filas.len() == 0 {
        Seq::empty()
    } else {
        let previo = grupos_spec(filas.drop_last(), i_nombre, i_por, i_l1, i_l2);
        let f = filas.last();
        let nombre = texto_en(f, i_nombre);
        let por = texto_en(f, i_por);
        if nombre.len() == 0 || por.len() == 0 {
            previo
        } else {
            previo.push(
                (nombre, por, nivel_spec(celda_opt(f, i_l1)), nivel_spec(celda_opt(f, i_l2))),
            )
        }
    }
}

/// Vista de las filas de una tabla.
pub open spec fn vista_filas(t: TablaCsv) -> Seq<Seq<Seq<char>>> {
    t.filas@.map_values(|f: Vec<String>| vista_fila(f@))
}

/// Lo que da la tabla de grupos: sin las columnas `Nombre` y `Por`, el aviso
/// de tabla inesperada; si no, sus grupos.
pub open spec fn tabla_grupos_spec(t: TablaCsv) -> Result<
    Seq<(Seq<char>, Seq<char>, Option<Seq<char>>, Option<Seq<char>>)>,
    Seq<char>,
> {
    let cab = vista_fila(t.cabecera@);
    match (posicion_columna(cab, "Nombre"@), posicion_columna(cab, "Por"@)) {
        (Some(a), Some(b)) => Ok(
            grupos_spec(
                vista_filas(t),
                a,
                b,
                posicion_columna(cab, "Luego1"@),
                posicion_columna(cab, "Luego2"@),
            ),
        ),
        _ => Err("tabla Grupos con columnas inesperadas; omitida"@),
    }
}

/// Grupos que se migran desde la tabla `Grupos`, o el aviso si la tabla no
/// tiene las columnas esperadas.
pub fn grupos_de(datos: &TablaCsv) -> (r: Result<Vec<Grupo>, String>)
    ensures
        match (r, tabla_grupos_spec(*datos)) {
            (Ok(v), Ok(e)) => v@.map_values(|g: Grupo| vista_grupo(g)) == e,
            (Err(a), Err(b)) => a@ == b,
            _ => false,
        },
        r matches Ok(v) ==> forall|i: int| 0 <= i < v@.len() ==> (#[trigger] v@[i]).id == 0,
{
    let (i_nombre, i_por) = match (datos.indice("Nombre"), datos.indice("Por")) {
        (Some(a), Some(b)) => (a, b),
        _ => {
            proof {
                reveal_strlit("tabla Grupos con columnas inesperadas; omitida");
            }
            return Err(String::from_str("tabla Grupos con columnas inesperadas; omitida"));
        },
    };
    let i_l1 = datos.indice("Luego1");
    let i_l2 = datos.indice("Luego2");
    let ghost vfs = vista_filas(*datos);
    let mut r: Vec<Grupo> = Vec::new();
    let mut k: usize = 0;
    while k < datos.filas.len()
        invariant
            k <= datos.filas@.len(),
            vfs == vista_filas(*datos),
            r@.map_values(|g: Grupo| vista_grupo(g)) == grupos_spec(
                vfs.subrange(0, k as int),
                i_nombre as int,
                i_por as int,
                ix(i_l1),
                ix(i_l2),
            ),
            forall|i: int| 0 <= i < r@.len() ==> (#[trigger] r@[i]).id == 0,
        decreases datos.filas.len() - k,
    {
        let ghost sub = vfs.subrange(0, k + 1);
        assert(sub.drop_last() =~= vfs.subrange(0, k as int));
        assert(sub.last() == vista_fila(datos.filas@[k as int]@));
        let ghost previo = r@.map_values(|g: Grupo| vista_grupo(g));
        let fila = &datos.filas[k];
        let nombre = texto_celda(fila, i_nombre);
        let por = texto_celda(fila, i_por);
        if !nombre.as_str().is_empty() && !por.as_str().is_empty() {
            let g = Grupo {
                id: 0,
                nombre,
                por,
                luego1: nivel_de(celda_fila(fila, i_l1)),
                luego2: nivel_de(celda_fila(fila, i_l2)),
            };
            r.push(g);
            assert(r@.map_values(|g: Grupo| vista_grupo(g)) =~= previo.push(vista_grupo(g)));
        }
        k += 1;
    }
    assert(vfs.subrange(0, k as int) =~= vfs);
    Ok(r)
}

// ---------------------------------------------------------------------------
// Categorías
// ---------------------------------------------------------------------------

/// Identificador del campo de nombre `nombre` en el álbum nuevo.
pub open spec fn id_campo_spec(ctx: Contexto, nombre: Seq<char>) -> Option<i64> {
    match id_de_nombre(ctx.por_nombre@, nombre) {
        Some(id) => match campo_de_id(ctx.campos@, id) {
            Some(i) => Some(ctx.campos@[i].id),
            None => None,
        },
        None => None,
    }
}

/// Identificador del campo de nombre `nombre`, si existe.
fn id_campo(ctx: &Contexto, nombre: &str) -> (r: Option<i64>)
    ensures
        r == id_campo_spec(*ctx, nombre@),
{
    match ctx.campo_por_nombre(nombre) {
        Some(c) => Some(c.id),
        None => None,
    }
}

/// Una categoría migrada: campo, si es de la principal, valor y si es el
/// valor por omisión.
pub open spec fn categorias_spec(
    ctx: Contexto,
    filas: Seq<Seq<Seq<char>>>,
    i_campo: int,
    i_valor: int,
    i_principal: Option<int>,
    i_default: Option<int>,
) -> Seq<(i64, bool, Seq<char>, bool)>
    decreases filas.len(),
{
    if filas.len() == 0 {
        Seq::empty()
    } else {
        let previo = categorias_spec(ctx, filas.drop_last(), i_campo, i_valor, i_principal, i_default);
        let f = filas.last();
        let nombre = texto_en(f, i_campo);
        let valor = texto_en(f, i_valor);
        if nombre.len() == 0 || valor.len() == 0 {
            previo
        } else {
            match id_campo_spec(ctx, nombre) {
                Some(id) => previo.push(
                    (
                        id,
                        bool_celda(celda_opt(f, i_principal), true),
                        valor,
                        bool_celda(celda_opt(f, i_default), false),
                    ),
                ),
                None => previo,
            }
        }
    }
}

/// Lo que da la tabla de categorías: sin las columnas del campo y del valor,
/// el aviso de tabla inesperada; si no, sus categorías.
pub open spec fn tabla_categorias_spec(ctx: Contexto, t: TablaCsv) -> Result<
    Seq<(i64, bool, Seq<char>, bool)>,
    Seq<char>,
> {
    let cab = vista_fila(t.cabecera@);
    match (
        o_bien(posicion_columna(cab, "Campo_n"@), posicion_columna(cab, "Campo_N"@)),
        posicion_columna(cab, "Valor"@),
    ) {
        (Some(a), Some(b)) => Ok(
            categorias_spec(
                ctx,
                vista_filas(t),
                a,
                b,
                posicion_columna(cab, "Principal"@),
                posicion_columna(cab, "Default"@),
            ),
        ),
        _ => Err("tabla Categorias con columnas inesperadas; omitida"@),
    }
}

/// Vista de una categoría migrada.
pub open spec fn vista_categoria(c: (i64, bool, String, bool)) -> (i64, bool, Seq<char>, bool) {
    (c.0, c.1, c.2@, c.3)
}

/// Categorías que se migran desde la tabla `Categorias` (las filas de campos
/// desconocidos se omiten), o el aviso si la tabla no tiene las columnas
/// esperadas.
pub fn categorias_de(ctx: &Contexto, datos: &TablaCsv) -> (r: Result<Vec<(i64, bool, String, bool)>, String>)
    ensures
        match (r, tabla_categorias_spec(*ctx, *datos)) {
            (Ok(v), Ok(e)) => v@.map_values(|c: (i64, bool, String, bool)| vista_categoria(c)) == e,
            (Err(a), Err(b)) => a@ == b,
            _ => false,
        },
{
    let i_campo = match datos.indice("Campo_n") {
        Some(i) => Some(i),
        None => datos.indice("Campo_N"),
    };
    let (i_campo, i_valor) = match (i_campo, datos.indice("Valor")) {
        (Some(a), Some(b)) => (a, b),
        _ => {
            proof {
                reveal_strlit("tabla Categorias con columnas inesperadas; omitida");
            }
            return Err(String::from_str("tabla Categorias con columnas inesperadas; omitida"));
        },
    };
    let i_principal = datos.indice("Principal");
    let i_default = datos.indice("Default");
    let ghost vfs = vista_filas(*datos);
    let mut r: Vec<(i64, bool, String, bool)> = Vec::new();
    let mut k: usize = 0;
    while k < datos.filas.len()
        invariant
            k <= datos.filas@.len(),
            vfs == vista_filas(*datos),
            r@.map_values(|c: (i64, bool, String, bool)| vista_categoria(c)) == categorias_spec(
                *ctx,
                vfs.subrange(0, k as int),
                i_campo as int,
                i_valor as int,
                ix(i_principal),
                ix(i_default),
            ),
        decreases datos.filas.len() - k,
    {
        let ghost sub = vfs.subrange(0, k + 1);
        assert(sub.drop_last() =~= vfs.subrange(0, k as int));
        assert(sub.last() == vista_fila(datos.filas@[k as int]@));
        let ghost previo = r@.map_values(|c: (i64, bool, String, bool)| vista_categoria(c));
        let fila = &datos.filas[k];
        let nombre = texto_celda(fila, i_campo);
        let valor = texto_celda(fila, i_valor);
        if !nombre.as_str().is_empty() && !valor.as_str().is_empty() {
            match id_campo(ctx, nombre.as_str()) {
                Some(id) => {
                    let principal = bool_de_celda(celda_fila(fila, i_principal), true);
                    let es_default = bool_de_celda(celda_fila(fila, i_default), false);
                    let c = (id, principal, valor, es_default);
                    r.push(c);
                    assert(r@.map_values(|c: (i64, bool, String, bool)| vista_categoria(c))
                        =~= previo.push(vista_categoria(c)));
                },
                None => {},
            }
        }
        k += 1;
    }
    assert(vfs.subrange(0, k as int) =~= vfs);
    Ok(r)
}

// ---------------------------------------------------------------------------
// Filtros avanzados
// ---------------------------------------------------------------------------

/// Vista de una condición de filtro.
pub open spec fn vista_cond(c: CondicionFiltro) -> (Option<OpRel>, Seq<char>, OpComp, Seq<char>) {
    (c.op_rel, c.campo@, c.op_comp, c.valor@)
}

/// Vista de un filtro con sus condiciones.
pub open spec fn vista_filtro(f: (String, Vec<CondicionFiltro>)) -> (
    Seq<char>,
    Seq<(Option<OpRel>, Seq<char>, OpComp, Seq<char>)>,
) {
    (f.0@, f.1@.map_values(|c: CondicionFiltro| vista_cond(c)))
}

/// Posición del filtro de nombre `nombre` en la lista, si ya está.
pub open spec fn pos_filtro(
    lista: Seq<(Seq<char>, Seq<(Option<OpRel>, Seq<char>, OpComp, Seq<char>)>)>,
    nombre: Seq<char>,
) -> Option<int>
    decreases lista.len(),
{
    if lista.len() == 0 {
        None
    } else {
        match pos_filtro(lista.drop_last(), nombre) {
            Some(i) => Some(i),
            None => if lista.last().0 == nombre {
                Some(lista.len() - 1)
            } else {
                None
            },
        }
    }
}

/// Filtros (en orden de primera aparición, cada uno con sus condiciones en
/// orden) y avisos de las filas. Una fila sin nombre se ignora; un operador
/// sin equivalente da un aviso y omite la condición. La primera condición de
/// un filtro no tiene conector; las demás llevan el suyo, o `Y` si no se
/// reconoce.
pub open spec fn filtros_spec(
    filas: Seq<Seq<Seq<char>>>,
    i_nombre: int,
    i_opr: Option<int>,
    i_campo: int,
    i_opc: int,
    i_valor: int,
) -> (Seq<(Seq<char>, Seq<(Option<OpRel>, Seq<char>, OpComp, Seq<char>)>)>, Seq<Seq<char>>)
    decreases filas.len(),
{
    if filas.len() == 0 {
        (Seq::empty(), Seq::empty())
    } else {
        let (lista, avisos) = filtros_spec(filas.drop_last(), i_nombre, i_opr, i_campo, i_opc, i_valor);
        let f = filas.last();
        let nombre = texto_en(f, i_nombre);
        let campo = texto_en(f, i_campo);
        let op_sql = texto_en(f, i_opc);
        let valor = texto_en(f, i_valor);
        let op_rel_txt = match i_opr {
            Some(i) => texto_en(f, i),
            None => Seq::empty(),
        };
        if nombre.len() == 0 {
            (lista, avisos)
        } else {
            match op_comp_spec(minusculas_unicode(recortado(op_sql))) {
                None => (
                    lista,
                    avisos.push(
                        "filtro '"@ + nombre + "': operador '"@ + op_sql
                            + "' no soportado; condición omitida"@,
                    ),
                ),
                Some(oc) => match pos_filtro(lista, nombre) {
                    None => (lista.push((nombre, seq![(None, campo, oc, valor)])), avisos),
                    Some(p) => {
                        let rel = match op_rel_spec(mayusculas_unicode(recortado(op_rel_txt))) {
                            Some(r) => r,
                            None => OpRel::Y,
                        };
                        (
                            lista.update(p, (lista[p].0, lista[p].1.push((Some(rel), campo, oc, valor)))),
                            avisos,
                        )
                    },
                },
            }
        }
    }
}

/// Condiciones de todos los filtros.
pub open spec fn total_condiciones(l: Seq<(Seq<char>, Seq<(Option<OpRel>, Seq<char>, OpComp, Seq<char>)>)>) -> nat
    decreases l.len(),
{
    if l.len() == 0 {
        0
    } else {
        total_condiciones(l.drop_last()) + l.last().1.len()
    }
}

/// Filas con nombre de filtro.
pub open spec fn filas_con_nombre(filas: Seq<Seq<Seq<char>>>, i_nombre: int) -> nat
    decreases filas.len(),
{
    if filas.len() == 0 {
        0
    } else {
        filas_con_nombre(filas.drop_last(), i_nombre) + if texto_en(filas.last(), i_nombre).len() > 0 {
            1nat
        } else {
            0nat
        }
    }
}

/// Los filtros están bien agrupados: nombres no vacíos y distintos, cada uno
/// con alguna condición, la primera sin conector y las demás con el suyo.
pub open spec fn filtros_agrupados(l: Seq<(Seq<char>, Seq<(Option<OpRel>, Seq<char>, OpComp, Seq<char>)>)>) -> bool {
    &&& forall|p: int, q: int| 0 <= p < q < l.len() ==> #[trigger] l[p].0 != #[trigger] l[q].0
    &&& forall|p: int|
        0 <= p < l.len() ==> (#[trigger] l[p]).0.len() > 0 && l[p].1.len() > 0 && l[p].1[0].0 is None
            && forall|j: int| 0 < j < l[p].1.len() ==> (#[trigger] l[p].1[j]).0 is Some
}

proof fn lema_total_update(
    l: Seq<(Seq<char>, Seq<(Option<OpRel>, Seq<char>, OpComp, Seq<char>)>)>,
    p: int,
    c: (Option<OpRel>, Seq<char>, OpComp, Seq<char>),
)
    requires
        0 <= p < l.len(),
    ensures
        total_condiciones(l.update(p, (l[p].0, l[p].1.push(c)))) == total_condiciones(l) + 1,
    decreases l.len(),
{
    let u = l.update(p, (l[p].0, l[p].1.push(c)));
    if p == l.len() - 1 {
        assert(u.drop_last() =~= l.drop_last());
    } else {
        assert(u.drop_last() =~= l.drop_last().update(p, (l[p].0, l[p].1.push(c))));
        lema_total_update(l.drop_last(), p, c);
    }
}

/// La migración de filtros agrupa las condiciones por nombre de filtro: cada
/// nombre aparece una vez (en el orden de su primera fila conservada), con
/// alguna condición; la primera no lleva conector y las demás sí; y cada
/// fila con nombre da una condición o un aviso.
pub proof fn ley_filtros_agrupados(
    filas: Seq<Seq<Seq<char>>>,
    i_nombre: int,
    i_opr: Option<int>,
    i_campo: int,
    i_opc: int,
    i_valor: int,
)
    ensures
        filtros_agrupados(filtros_spec(filas, i_nombre, i_opr, i_campo, i_opc, i_valor).0),
        total_condiciones(filtros_spec(filas, i_nombre, i_opr, i_campo, i_opc, i_valor).0)
            + filtros_spec(filas, i_nombre, i_opr, i_campo, i_opc, i_valor).1.len() == filas_con_nombre(
            filas,
            i_nombre,
        ),
    decreases filas.len(),
{
    if filas.len() > 0 {
        ley_filtros_agrupados(filas.drop_last(), i_nombre, i_opr, i_campo, i_opc, i_valor);
        let (lista, avisos) = filtros_spec(filas.drop_last(), i_nombre, i_opr, i_campo, i_opc, i_valor);
        let f = filas.last();
        let nombre = texto_en(f, i_nombre);
        let campo = texto_en(f, i_campo);
        let op_sql = texto_en(f, i_opc);
        let valor = texto_en(f, i_valor);
        let op_rel_txt = match i_opr {
            Some(i) => texto_en(f, i),
            None => Seq::empty(),
        };
        if nombre.len() > 0 {
            match op_comp_spec(minusculas_unicode(recortado(op_sql))) {
                None => {},
                Some(oc) => {
                    lema_pos_filtro(lista, nombre);
                    match pos_filtro(lista, nombre) {
                        None => {
                            let nl = lista.push((nombre, seq![(None, campo, oc, valor)]));
                            assert(nl.drop_last() =~= lista);
                            assert forall|p: int, q: int| 0 <= p < q < nl.len() implies #[trigger] nl[p].0
                                != #[trigger] nl[q].0 by {
                                if q == lista.len() {
                                    assert(lista[p].0 != nombre);
                                } else {
                                    assert(nl[p] == lista[p] && nl[q] == lista[q]);
                                }
                            }
                            assert forall|p: int| 0 <= p < nl.len() implies (#[trigger] nl[p]).0.len() > 0
                                && nl[p].1.len() > 0 && nl[p].1[0].0 is None && forall|j: int|
                                0 < j < nl[p].1.len() ==> (#[trigger] nl[p].1[j]).0 is Some by {
                                if p < lista.len() {
                                    assert(nl[p] == lista[p]);
                                }
                            }
                        },
                        Some(p0) => {
                            let rel = match op_rel_spec(mayusculas_unicode(recortado(op_rel_txt))) {
                                Some(r) => r,
                                None => OpRel::Y,
                            };
                            let c = (Some(rel), campo, oc, valor);
                            let nl = lista.update(p0, (lista[p0].0, lista[p0].1.push(c)));
                            lema_total_update(lista, p0, c);
                            assert forall|p: int, q: int| 0 <= p < q < nl.len() implies #[trigger] nl[p].0
                                != #[trigger] nl[q].0 by {
                                assert(nl[p].0 == lista[p].0 && nl[q].0 == lista[q].0);
                            }
                            assert forall|p: int| 0 <= p < nl.len() implies (#[trigger] nl[p]).0.len() > 0
                                && nl[p].1.len() > 0 && nl[p].1[0].0 is None && forall|j: int|
                                0 < j < nl[p].1.len() ==> (#[trigger] nl[p].1[j]).0 is Some by {
                                if p != p0 {
                                    assert(nl[p] == lista[p]);
                                } else {
                                    assert forall|j: int| 0 < j < nl[p].1.len() implies (#[trigger] nl[p].1[j]).0 is Some by {
                                        if j < lista[p0].1.len() {
                                            assert(nl[p].1[j] == lista[p0].1[j]);
                                        }
                                    }
                                }
                            }
                        },
                    }
                },
            }
        }
    }
}

/// Lo que da la tabla de filtros: sin las columnas esperadas, el aviso de
/// tabla inesperada; si no, sus filtros y avisos.
pub open spec fn tabla_filtros_spec(t: TablaCsv) -> Result<
    (Seq<(Seq<char>, Seq<(Option<OpRel>, Seq<char>, OpComp, Seq<char>)>)>, Seq<Seq<char>>),
    Seq<char>,
> {
    let cab = vista_fila(t.cabecera@);
    match (
        posicion_columna(cab, "Nombre"@),
        posicion_columna(cab, "Campo"@),
        posicion_columna(cab, "OpC"@),
        posicion_columna(cab, "Valor"@),
    ) {
        (Some(a), Some(c), Some(d), Some(e)) => Ok(
            filtros_spec(vista_filas(t), a, posicion_columna(cab, "OpR"@), c, d, e),
        ),
        _ => Err("tabla FiltrosAv con columnas inesperadas; omitida"@),
    }
}

proof fn lema_pos_filtro(
    l: Seq<(Seq<char>, Seq<(Option<OpRel>, Seq<char>, OpComp, Seq<char>)>)>,
    nombre: Seq<char>,
)
    ensures
        match pos_filtro(l, nombre) {
            Some(i) => 0 <= i < l.len() && l[i].0 == nombre,
            None => forall|k: int| 0 <= k < l.len() ==> #[trigger] l[k].0 != nombre,
        },
    decreases l.len(),
{
    if l.len() > 0 {
        lema_pos_filtro(l.drop_last(), nombre);
        match pos_filtro(l.drop_last(), nombre) {
            Some(i) => {},
            None => {
                assert forall|k: int| 0 <= k < l.len() - 1 implies #[trigger] l[k].0 != nombre by {
                    assert(l.drop_last()[k] == l[k]);
                }
            },
        }
    }
}

proof fn lema_pos_filtro_unica(
    l: Seq<(Seq<char>, Seq<(Option<OpRel>, Seq<char>, OpComp, Seq<char>)>)>,
    nombre: Seq<char>,
    p: int,
)
    requires
        0 <= p < l.len(),
        l[p].0 == nombre,
        forall|k: int| 0 <= k < p ==> #[trigger] l[k].0 != nombre,
    ensures
        pos_filtro(l, nombre) == Some(p),
    decreases l.len(),
{
    if l.len() - 1 > p {
        assert forall|k: int| 0 <= k < p implies #[trigger] l.drop_last()[k].0 != nombre by {
            assert(l.drop_last()[k] == l[k]);
        }
        lema_pos_filtro_unica(l.drop_last(), nombre, p);
    } else {
        lema_pos_filtro(l.drop_last(), nombre);
        if pos_filtro(l.drop_last(), nombre) is Some {
            let i = pos_filtro(l.drop_last(), nombre)->Some_0;
            assert(l.drop_last()[i] == l[i]);
        }
    }
}

/// Posición del filtro `nombre` en la lista que se construye.
fn buscar_filtro(lista: &Vec<(String, Vec<CondicionFiltro>)>, nombre: &String) -> (r: Option<usize>)
    ensures
        match r {
            Some(j) => pos_filtro(
                lista@.map_values(|f: (String, Vec<CondicionFiltro>)| vista_filtro(f)),
                nombre@,
            ) == Some(j as int) && j < lista@.len(),
            None => pos_filtro(
                lista@.map_values(|f: (String, Vec<CondicionFiltro>)| vista_filtro(f)),
                nombre@,
            ) is None,
        },
{
    let ghost vl = lista@.map_values(|f: (String, Vec<CondicionFiltro>)| vista_filtro(f));
    let mut i: usize = 0;
    while i < lista.len()
        invariant
            i <= lista@.len(),
            vl == lista@.map_values(|f: (String, Vec<CondicionFiltro>)| vista_filtro(f)),
            forall|k: int| 0 <= k < i ==> #[trigger] vl[k].0 != nombre@,
        decreases lista.len() - i,
    {
        assert(vl[i as int].0 == lista@[i as int].0@);
        if lista[i].0 == *nombre {
            proof {
                lema_pos_filtro_unica(vl, nombre@, i as int);
            }
            return Some(i);
        }
        i += 1;
    }
    proof {
        lema_pos_filtro(vl, nombre@);
        if pos_filtro(vl, nombre@) is Some {
            let j = pos_filtro(vl, nombre@)->Some_0;
            assert(vl[j].0 != nombre@);
        }
    }
    None
}

/// Filtros que se migran desde la tabla `FiltrosAv` y avisos de las
/// condiciones omitidas, o el aviso si la tabla no tiene las columnas
/// esperadas.
pub fn filtros_de(datos: &TablaCsv) -> (r: Result<(Vec<(String, Vec<CondicionFiltro>)>, Vec<String>), String>)
    ensures
        match (r, tabla_filtros_spec(*datos)) {
            (Ok((l, a)), Ok((el, ea))) => l@.map_values(
                |f: (String, Vec<CondicionFiltro>)| vista_filtro(f),
            ) == el && a@.map_values(|t: String| t@) == ea,
            (Err(a), Err(b)) => a@ == b,
            _ => false,
        },
{
    let (i_nombre, i_campo, i_opc, i_valor) = match (
        datos.indice("Nombre"),
        datos.indice("Campo"),
        datos.indice("OpC"),
        datos.indice("Valor"),
    ) {
        (Some(a), Some(c), Some(d), Some(e)) => (a, c, d, e),
        _ => {
            proof {
                reveal_strlit("tabla FiltrosAv con columnas inesperadas; omitida");
            }
            return Err(String::from_str("tabla FiltrosAv con columnas inesperadas; omitida"));
        },
    };
    let i_opr = datos.indice("OpR");
    let ghost vfs = vista_filas(*datos);
    let mut lista: Vec<(String, Vec<CondicionFiltro>)> = Vec::new();
    let mut avisos: Vec<String> = Vec::new();
    let mut k: usize = 0;
    while k < datos.filas.len()
        invariant
            k <= datos.filas@.len(),
            vfs == vista_filas(*datos),
            (lista@.map_values(|f: (String, Vec<CondicionFiltro>)| vista_filtro(f)), avisos@.map_values(
                |t: String| t@,
            )) == filtros_spec(
                vfs.subrange(0, k as int),
                i_nombre as int,
                ix(i_opr),
                i_campo as int,
                i_opc as int,
                i_valor as int,
            ),
        decreases datos.filas.len() - k,
    {
        let ghost sub = vfs.subrange(0, k + 1);
        assert(sub.drop_last() =~= vfs.subrange(0, k as int));
        assert(sub.last() == vista_fila(datos.filas@[k as int]@));
        let ghost vl = lista@.map_values(|f: (String, Vec<CondicionFiltro>)| vista_filtro(f));
        let ghost va = avisos@.map_values(|t: String| t@);
        let ghost fv = sub.last();
        let fila = &datos.filas[k];
        let nombre = texto_celda(fila, i_nombre);
        if !nombre.as_str().is_empty() {
            let campo = texto_celda(fila, i_campo);
            let op_sql = texto_celda(fila, i_opc);
            let valor = texto_celda(fila, i_valor);
            let op_rel_txt = match i_opr {
                Some(i) => texto_celda(fila, i),
                None => String::new(),
            };
            match mapear_op_comp(op_sql.as_str()) {
                None => {
                    let mut aviso = String::from_str("filtro '");
                    aviso.append(nombre.as_str());
                    aviso.append("': operador '");
                    aviso.append(op_sql.as_str());
                    aviso.append("' no soportado; condición omitida");
                    avisos.push(aviso);
                    assert(avisos@.map_values(|t: String| t@) =~= va.push(aviso@));
                    assert(filtros_spec(sub, i_nombre as int, ix(i_opr), i_campo as int, i_opc as int, i_valor as int).0 == vl);
                },
                Some(oc) => {
                    match buscar_filtro(&lista, &nombre) {
                        None => {
                            let c = CondicionFiltro { op_rel: None, campo, op_comp: oc, valor };
                            let mut conds: Vec<CondicionFiltro> = Vec::new();
                            conds.push(c);
                            assert(conds@.map_values(|c: CondicionFiltro| vista_cond(c)) =~= seq![
                                vista_cond(c),
                            ]);
                            let e = (nombre, conds);
                            lista.push(e);
                            assert(lista@.map_values(
                                |f: (String, Vec<CondicionFiltro>)| vista_filtro(f),
                            ) =~= vl.push(vista_filtro(e)));
                            assert(vista_filtro(e) == (nombre@, seq![(None::<OpRel>, campo@, oc, valor@)]));
                            assert(filtros_spec(sub, i_nombre as int, ix(i_opr), i_campo as int, i_opc as int, i_valor as int).0 == vl.push(vista_filtro(e)));
                        },
                        Some(p) => {
                            let rel = match mapear_op_rel(op_rel_txt.as_str()) {
                                Some(r) => r,
                                None => OpRel::Y,
                            };
                            let c = CondicionFiltro { op_rel: Some(rel), campo, op_comp: oc, valor };
                            let (n0, mut conds) = lista.remove(p);
                            let ghost vc = conds@.map_values(|c: CondicionFiltro| vista_cond(c));
                            conds.push(c);
                            assert(conds@.map_values(|c: CondicionFiltro| vista_cond(c)) =~= vc.push(
                                vista_cond(c),
                            ));
                            let e = (n0, conds);
                            lista.insert(p, e);
                            assert(lista@.map_values(
                                |f: (String, Vec<CondicionFiltro>)| vista_filtro(f),
                            ) =~= vl.update(p as int, vista_filtro(e)));
                            assert(vista_filtro(e) == (vl[p as int].0, vl[p as int].1.push(vista_cond(c))));
                            assert(vista_cond(c) == (Some(rel), campo@, oc, valor@));
                            assert(filtros_spec(sub, i_nombre as int, ix(i_opr), i_campo as int, i_opc as int, i_valor as int).0 == vl.update(p as int, (vl[p as int].0, vl[p as int].1.push(vista_cond(c)))));
                        },
                    }
                },
            }
        }
        proof {
            let esperado = filtros_spec(sub, i_nombre as int, ix(i_opr), i_campo as int, i_opc as int, i_valor as int);
            assert(lista@.map_values(|f: (String, Vec<CondicionFiltro>)| vista_filtro(f)) =~= esperado.0);
            assert(avisos@.map_values(|t: String| t@) =~= esperado.1);
        }
        k += 1;
    }
    assert(vfs.subrange(0, k as int) =~= vfs);
    Ok((lista, avisos))
}

// ---------------------------------------------------------------------------
// Multidatos
// ---------------------------------------------------------------------------

/// Clave de un grupo de valores de multidato: registro, si es de la
/// principal, y campo.
pub type ClaveMultidato = (i64, bool, i64);

/// Posición del grupo de clave `clave`, si ya está.
pub open spec fn pos_grupo(g: Seq<(ClaveMultidato, Seq<Seq<char>>)>, clave: ClaveMultidato) -> Option<int>
    decreases g.len(),
{
    if g.len() == 0 {
        None
    } else {
        match pos_grupo(g.drop_last(), clave) {
            Some(i) => Some(i),
            None => if g.last().0 == clave {
                Some(g.len() - 1)
            } else {
                None
            },
        }
    }
}

/// Valores de multidato agrupados por clave (en orden de primera aparición,
/// con los valores en orden) y nombres de campo desconocidos (cada uno una
/// vez, en orden). Se ignoran las filas sin id de registro, sin campo o sin
/// valor.
pub open spec fn multidatos_spec(
    ctx: Contexto,
    filas: Seq<Seq<Seq<char>>>,
    i_id: int,
    i_principal: Option<int>,
    i_campo: int,
    i_valor: int,
) -> (Seq<(ClaveMultidato, Seq<Seq<char>>)>, Seq<Seq<char>>)
    decreases filas.len(),
{
    if filas.len() == 0 {
        (Seq::empty(), Seq::empty())
    } else {
        let (g, desc) = multidatos_spec(ctx, filas.drop_last(), i_id, i_principal, i_campo, i_valor);
        let f = filas.last();
        let nombre = texto_en(f, i_campo);
        let valor = texto_en(f, i_valor);
        match entero_celda_en(f, i_id) {
            None => (g, desc),
            Some(id) => if nombre.len() == 0 || valor.len() == 0 {
                (g, desc)
            } else {
                match id_campo_spec(ctx, nombre) {
                    None => if desc.contains(nombre) {
                        (g, desc)
                    } else {
                        (g, desc.push(nombre))
                    },
                    Some(cid) => {
                        let clave = (id as i64, bool_celda(celda_opt(f, i_principal), true), cid);
                        match pos_grupo(g, clave) {
                            None => (g.push((clave, seq![valor])), desc),
                            Some(p) => (g.update(p, (clave, g[p].1.push(valor))), desc),
                        }
                    },
                }
            },
        }
    }
}

/// Entero de la celda `i` con blancos en los extremos, si la fila la tiene
/// y lo denota.
pub open spec fn entero_celda_en(f: Seq<Seq<char>>, i: int) -> Option<int> {
    if 0 <= i < f.len() {
        entero_spec(recortado(f[i]))
    } else {
        None
    }
}

/// Lo que da la tabla de multidatos: sin las columnas del registro, el
/// campo y el valor, el aviso de tabla inesperada; si no, sus grupos y los
/// campos desconocidos.
pub open spec fn tabla_multidatos_spec(ctx: Contexto, t: TablaCsv) -> Result<
    (Seq<(ClaveMultidato, Seq<Seq<char>>)>, Seq<Seq<char>>),
    Seq<char>,
> {
    let cab = vista_fila(t.cabecera@);
    match (
        o_bien(posicion_columna(cab, "Id"@), posicion_columna(cab, "_id_"@)),
        o_bien(posicion_columna(cab, "Campo_n"@), posicion_columna(cab, "Campo_N"@)),
        posicion_columna(cab, "Valor"@),
    ) {
        (Some(a), Some(b), Some(c)) => Ok(
            multidatos_spec(ctx, vista_filas(t), a, posicion_columna(cab, "Principal"@), b, c),
        ),
        _ => Err("tabla Multidatos con columnas inesperadas; omitida"@),
    }
}

/// Valores de todos los grupos.
pub open spec fn total_valores(g: Seq<(ClaveMultidato, Seq<Seq<char>>)>) -> nat
    decreases g.len(),
{
    if g.len() == 0 {
        0
    } else {
        total_valores(g.drop_last()) + g.last().1.len()
    }
}

/// La fila de multidato se migra: tiene id de registro, campo y valor, y el
/// campo es uno de los migrados.
pub open spec fn fila_md_valida(ctx: Contexto, f: Seq<Seq<char>>, i_id: int, i_campo: int, i_valor: int) -> bool {
    &&& entero_celda_en(f, i_id) is Some
    &&& texto_en(f, i_campo).len() > 0
    &&& texto_en(f, i_valor).len() > 0
    &&& id_campo_spec(ctx, texto_en(f, i_campo)) is Some
}

/// Filas de multidato que se migran.
pub open spec fn filas_md_validas(ctx: Contexto, filas: Seq<Seq<Seq<char>>>, i_id: int, i_campo: int, i_valor: int) -> nat
    decreases filas.len(),
{
    if filas.len() == 0 {
        0
    } else {
        filas_md_validas(ctx, filas.drop_last(), i_id, i_campo, i_valor) + if fila_md_valida(
            ctx,
            filas.last(),
            i_id,
            i_campo,
            i_valor,
        ) {
            1nat
        } else {
            0nat
        }
    }
}

proof fn lema_pos_grupo_ninguno(g: Seq<(ClaveMultidato, Seq<Seq<char>>)>, clave: ClaveMultidato)
    ensures
        pos_grupo(g, clave) is None ==> forall|k: int| 0 <= k < g.len() ==> #[trigger] g[k].0 != clave,
    decreases g.len(),
{
    if g.len() > 0 {
        lema_pos_grupo_ninguno(g.drop_last(), clave);
        if pos_grupo(g, clave) is None {
            assert forall|k: int| 0 <= k < g.len() implies #[trigger] g[k].0 != clave by {
                if k < g.len() - 1 {
                    assert(g.drop_last()[k] == g[k]);
                }
            }
        }
    }
}

proof fn lema_total_valores_update(g: Seq<(ClaveMultidato, Seq<Seq<char>>)>, p: int, v: Seq<char>)
    requires
        0 <= p < g.len(),
    ensures
        total_valores(g.update(p, (g[p].0, g[p].1.push(v)))) == total_valores(g) + 1,
    decreases g.len(),
{
    let u = g.update(p, (g[p].0, g[p].1.push(v)));
    if p == g.len() - 1 {
        assert(u.drop_last() =~= g.drop_last());
    } else {
        assert(u.drop_last() =~= g.drop_last().update(p, (g[p].0, g[p].1.push(v))));
        lema_total_valores_update(g.drop_last(), p, v);
    }
}

/// La migración de multidatos agrupa los valores por registro, tabla y
/// campo: cada clave aparece una vez y con algún valor; los campos
/// desconocidos se avisan una sola vez cada uno; y se migra un valor por
/// cada fila con id, campo migrado y valor.
pub proof fn ley_multidatos_agrupados(
    ctx: Contexto,
    filas: Seq<Seq<Seq<char>>>,
    i_id: int,
    i_principal: Option<int>,
    i_campo: int,
    i_valor: int,
)
    ensures
        ({
            let (g, desc) = multidatos_spec(ctx, filas, i_id, i_principal, i_campo, i_valor);
            &&& forall|p: int, q: int| 0 <= p < q < g.len() ==> #[trigger] g[p].0 != #[trigger] g[q].0
            &&& forall|p: int| 0 <= p < g.len() ==> (#[trigger] g[p]).1.len() > 0
            &&& desc.no_duplicates()
            &&& total_valores(g) == filas_md_validas(ctx, filas, i_id, i_campo, i_valor)
        }),
    decreases filas.len(),
{
    if filas.len() > 0 {
        ley_multidatos_agrupados(ctx, filas.drop_last(), i_id, i_principal, i_campo, i_valor);
        let (g, desc) = multidatos_spec(ctx, filas.drop_last(), i_id, i_principal, i_campo, i_valor);
        let f = filas.last();
        let nombre = texto_en(f, i_campo);
        let valor = texto_en(f, i_valor);
        match entero_celda_en(f, i_id) {
            None => {},
            Some(id) => if nombre.len() > 0 && valor.len() > 0 {
                match id_campo_spec(ctx, nombre) {
                    None => {
                        if !desc.contains(nombre) {
                            assert forall|a: int, b: int| 0 <= a < b < desc.push(nombre).len() implies desc.push(nombre)[a]
                                != desc.push(nombre)[b] by {
                                if b == desc.len() {
                                    assert(desc.push(nombre)[a] == desc[a]);
                                } else {
                                    assert(desc.push(nombre)[a] == desc[a] && desc.push(nombre)[b] == desc[b]);
                                }
                            }
                        }
                    },
                    Some(cid) => {
                        let clave = (id as i64, bool_celda(celda_opt(f, i_principal), true), cid);
                        lema_pos_grupo_clave(g, clave);
                        lema_pos_grupo_ninguno(g, clave);
                        match pos_grupo(g, clave) {
                            None => {
                                let ng = g.push((clave, seq![valor]));
                                assert(ng.drop_last() =~= g);
                                assert forall|p: int, q: int| 0 <= p < q < ng.len() implies #[trigger] ng[p].0
                                    != #[trigger] ng[q].0 by {
                                    if q == g.len() {
                                        assert(g[p].0 != clave);
                                    } else {
                                        assert(ng[p] == g[p] && ng[q] == g[q]);
                                    }
                                }
                                assert forall|p: int| 0 <= p < ng.len() implies (#[trigger] ng[p]).1.len() > 0 by {
                                    if p < g.len() {
                                        assert(ng[p] == g[p]);
                                    }
                                }
                            },
                            Some(p0) => {
                                let ng = g.update(p0, (clave, g[p0].1.push(valor)));
                                lema_total_valores_update(g, p0, valor);
                                assert(ng == g.update(p0, (g[p0].0, g[p0].1.push(valor))));
                                assert forall|p: int, q: int| 0 <= p < q < ng.len() implies #[trigger] ng[p].0
                                    != #[trigger] ng[q].0 by {
                                    assert(ng[p].0 == g[p].0 && ng[q].0 == g[q].0);
                                }
                                assert forall|p: int| 0 <= p < ng.len() implies (#[trigger] ng[p]).1.len() > 0 by {
                                    if p != p0 {
                                        assert(ng[p] == g[p]);
                                    }
                                }
                            },
                        }
                    },
                }
            },
        }
    }
}

/// Aviso de un multidato de campo desconocido.
pub open spec fn aviso_desconocido(n: Seq<char>) -> Seq<char> {
    "multidato de campo desconocido '"@ + n + "'; omitido"@
}

/// Vista de un grupo de valores.
pub open spec fn vista_grupo_md(g: (ClaveMultidato, Vec<String>)) -> (ClaveMultidato, Seq<Seq<char>>) {
    (g.0, g.1@.map_values(|t: String| t@))
}

/// Posición del grupo `clave` en la lista que se construye.
fn buscar_grupo(g: &Vec<(ClaveMultidato, Vec<String>)>, clave: ClaveMultidato) -> (r: Option<usize>)
    ensures
        match r {
            Some(j) => pos_grupo(g@.map_values(|x: (ClaveMultidato, Vec<String>)| vista_grupo_md(x)), clave)
                == Some(j as int) && j < g@.len(),
            None => pos_grupo(g@.map_values(|x: (ClaveMultidato, Vec<String>)| vista_grupo_md(x)), clave) is None,
        },
{
    let ghost vg = g@.map_values(|x: (ClaveMultidato, Vec<String>)| vista_grupo_md(x));
    let mut i: usize = 0;
    while i < g.len()
        invariant
            i <= g@.len(),
            vg == g@.map_values(|x: (ClaveMultidato, Vec<String>)| vista_grupo_md(x)),
            pos_grupo(vg.subrange(0, i as int), clave) is None,
        decreases g.len() - i,
    {
        let ghost sub = vg.subrange(0, i + 1);
        assert(sub.drop_last() =~= vg.subrange(0, i as int));
        assert(sub.last() == vista_grupo_md(g@[i as int]));
        if g[i].0.0 == clave.0 && g[i].0.1 == clave.1 && g[i].0.2 == clave.2 {
            proof {
                lema_pos_grupo_prefijo(vg, i + 1, clave);
            }
            return Some(i);
        }
        i += 1;
    }
    assert(vg.subrange(0, i as int) =~= vg);
    None
}

proof fn lema_pos_grupo_clave(g: Seq<(ClaveMultidato, Seq<Seq<char>>)>, clave: ClaveMultidato)
    ensures
        pos_grupo(g, clave) matches Some(p) ==> 0 <= p < g.len() && g[p].0 == clave,
    decreases g.len(),
{
    if g.len() > 0 {
        lema_pos_grupo_clave(g.drop_last(), clave);
    }
}

proof fn lema_pos_grupo_prefijo(g: Seq<(ClaveMultidato, Seq<Seq<char>>)>, m: int, clave: ClaveMultidato)
    requires
        0 <= m <= g.len(),
        pos_grupo(g.subrange(0, m), clave) is Some,
    ensures
        pos_grupo(g, clave) == pos_grupo(g.subrange(0, m), clave),
    decreases g.len() - m,
{
    if m < g.len() {
        assert(g.subrange(0, m + 1).drop_last() =~= g.subrange(0, m));
        lema_pos_grupo_prefijo(g, m + 1, clave);
    } else {
        assert(g.subrange(0, m) =~= g);
    }
}

/// Si `nombre` ya está en la lista.
fn contiene_texto(l: &Vec<String>, nombre: &String) -> (r: bool)
    ensures
        r == l@.map_values(|t: String| t@).contains(nombre@),
{
    let ghost vl = l@.map_values(|t: String| t@);
    let mut i: usize = 0;
    while i < l.len()
        invariant
            i <= l@.len(),
            vl == l@.map_values(|t: String| t@),
            forall|k: int| 0 <= k < i ==> vl[k] != nombre@,
        decreases l.len() - i,
    {
        if l[i] == *nombre {
            assert(vl[i as int] == nombre@);
            return true;
        }
        i += 1;
    }
    false
}

/// Grupos de valores de multidato que se migran desde la tabla `Multidatos`
/// y avisos de los campos desconocidos, o el aviso si la tabla no tiene las
/// columnas esperadas.
pub fn multidatos_de(ctx: &Contexto, datos: &TablaCsv) -> (r: Result<
    (Vec<(ClaveMultidato, Vec<String>)>, Vec<String>),
    String,
>)
    ensures
        match (r, tabla_multidatos_spec(*ctx, *datos)) {
            (Ok((g, a)), Ok((eg, ed))) => g@.map_values(
                |x: (ClaveMultidato, Vec<String>)| vista_grupo_md(x),
            ) == eg && a@.map_values(|t: String| t@) == ed.map_values(
                |n: Seq<char>| aviso_desconocido(n),
            ),
            (Err(a), Err(b)) => a@ == b,
            _ => false,
        },
{
    let i_id = match datos.indice("Id") {
        Some(i) => Some(i),
        None => datos.indice("_id_"),
    };
    let i_campo = match datos.indice("Campo_n") {
        Some(i) => Some(i),
        None => datos.indice("Campo_N"),
    };
    let (i_id, i_campo, i_valor) = match (i_id, i_campo, datos.indice("Valor")) {
        (Some(a), Some(b), Some(c)) => (a, b, c),
        _ => {
            proof {
                reveal_strlit("tabla Multidatos con columnas inesperadas; omitida");
            }
            return Err(String::from_str("tabla Multidatos con columnas inesperadas; omitida"));
        },
    };
    let i_principal = datos.indice("Principal");
    let ghost vfs = vista_filas(*datos);
    let mut grupos: Vec<(ClaveMultidato, Vec<String>)> = Vec::new();
    let mut desconocidos: Vec<String> = Vec::new();
    let mut k: usize = 0;
    while k < datos.filas.len()
        invariant
            k <= datos.filas@.len(),
            vfs == vista_filas(*datos),
            (grupos@.map_values(|x: (ClaveMultidato, Vec<String>)| vista_grupo_md(x)), desconocidos@.map_values(
                |t: String| t@,
            )) == multidatos_spec(
                *ctx,
                vfs.subrange(0, k as int),
                i_id as int,
                ix(i_principal),
                i_campo as int,
                i_valor as int,
            ),
        decreases datos.filas.len() - k,
    {
        let ghost sub = vfs.subrange(0, k + 1);
        assert(sub.drop_last() =~= vfs.subrange(0, k as int));
        assert(sub.last() == vista_fila(datos.filas@[k as int]@));
        let ghost vg = grupos@.map_values(|x: (ClaveMultidato, Vec<String>)| vista_grupo_md(x));
        let ghost vd = desconocidos@.map_values(|t: String| t@);
        let ghost esperado = multidatos_spec(*ctx, sub, i_id as int, ix(i_principal), i_campo as int, i_valor as int);
        let fila = &datos.filas[k];
        let id_txt = texto_celda(fila, i_id);
        let id = if i_id < fila.len() {
            entero_de(&caracteres(id_txt.as_str()))
        } else {
            None
        };
        match id {
            None => {},
            Some(id) => {
                let nombre = texto_celda(fila, i_campo);
                let valor = texto_celda(fila, i_valor);
                if !nombre.as_str().is_empty() && !valor.as_str().is_empty() {
                    match id_campo(ctx, nombre.as_str()) {
                        None => {
                            if !contiene_texto(&desconocidos, &nombre) {
                                desconocidos.push(nombre);
                                assert(desconocidos@.map_values(|t: String| t@) =~= vd.push(nombre@));
                            }
                        },
                        Some(cid) => {
                            let principal = bool_de_celda(celda_fila(fila, i_principal), true);
                            let clave: ClaveMultidato = (id, principal, cid);
                            match buscar_grupo(&grupos, clave) {
                                None => {
                                    let mut vals: Vec<String> = Vec::new();
                                    vals.push(valor);
                                    let e = (clave, vals);
                                    grupos.push(e);
                                    assert(vista_grupo_md(e) == (clave, seq![valor@])) by {
                                        assert(e.1@.map_values(|t: String| t@) =~= seq![valor@]);
                                    }
                                    assert(grupos@.map_values(
                                        |x: (ClaveMultidato, Vec<String>)| vista_grupo_md(x),
                                    ) =~= vg.push(vista_grupo_md(e)));
                                },
                                Some(p) => {
                                    proof {
                                        lema_pos_grupo_clave(vg, clave);
                                    }
                                    let (c0, mut vals) = grupos.remove(p);
                                    let ghost vv = vals@.map_values(|t: String| t@);
                                    vals.push(valor);
                                    assert(vals@.map_values(|t: String| t@) =~= vv.push(valor@));
                                    let e = (c0, vals);
                                    grupos.insert(p, e);
                                    assert(grupos@.map_values(
                                        |x: (ClaveMultidato, Vec<String>)| vista_grupo_md(x),
                                    ) =~= vg.update(p as int, vista_grupo_md(e)));
                                },
                            }
                        },
                    }
                }
            },
        }
        proof {
            assert(grupos@.map_values(|x: (ClaveMultidato, Vec<String>)| vista_grupo_md(x)) =~= esperado.0);
            assert(desconocidos@.map_values(|t: String| t@) =~= esperado.1);
        }
        k += 1;
    }
    assert(vfs.subrange(0, k as int) =~= vfs);
    let mut avisos: Vec<String> = Vec::new();
    let mut j: usize = 0;
    let ghost vd = desconocidos@.map_values(|t: String| t@);
    while j < desconocidos.len()
        invariant
            j <= desconocidos@.len(),
            vd == desconocidos@.map_values(|t: String| t@),
            avisos@.map_values(|t: String| t@) == vd.subrange(0, j as int).map_values(
                |n: Seq<char>| aviso_desconocido(n),
            ),
        decreases desconocidos.len() - j,
    {
        let mut a = String::from_str("multidato de campo desconocido '");
        a.append(desconocidos[j].as_str());
        a.append("'; omitido");
        assert(a@ == aviso_desconocido(vd[j as int]));
        let ghost previas = avisos@.map_values(|t: String| t@);
        avisos.push(a);
        assert(avisos@.map_values(|t: String| t@) =~= previas.push(a@));
        assert(vd.subrange(0, j + 1).map_values(|n: Seq<char>| aviso_desconocido(n)) =~= vd.subrange(
            0,
            j as int,
        ).map_values(|n: Seq<char>| aviso_desconocido(n)).push(aviso_desconocido(vd[j as int])));
        j += 1;
        assert(avisos@.map_values(|t: String| t@) =~= vd.subrange(0, j as int).map_values(
            |n: Seq<char>| aviso_desconocido(n),
        ));
    }
    assert(vd.subrange(0, j as int) =~= vd);
    Ok((grupos, avisos))
}

} // verus!
