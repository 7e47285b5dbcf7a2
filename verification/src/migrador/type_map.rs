//! Mapeo de los metadatos de campos del álbum de origen (tabla
//! `propiedades`) al modelo nuevo, y conversión de valores exportados.
//!
//! Columnas de `propiedades`: `Nombre`, `Tipo` (0..5), `longitud` (se
//! descarta), `decimales`, `totalizable`, `sInfo` (fórmula de un calculado),
//! `TipoSal` (no se conserva), `Enprincipal` (tabla principal o variantes),
//! `Modificable`, `Visible` y `OrdenVisible`. Los campos de sistema (los que
//! empiezan por `_`) no son campos de usuario.

use vstd::prelude::*;
use vstd::string::*;
use crate::migrador::csv_parser::{posicion_columna, vista_fila, TablaCsv};
use crate::model::{tipo_de_jet, CampoNuevo, Tabla, TipoCampo};
use crate::texto::{
    lema_contiene_push, cadena, caracteres, igual_sin_caja, iguales, iguales_sin_caja, minuscula, minusculas,
    recortado, recortar,
};

verus! {

/// Nombres de los campos de sistema del álbum de origen.
pub open spec fn nombres_sistema() -> Seq<Seq<char>> {
    seq![
        "_imagen_"@,
        "_id_"@,
        "_auxiliar_"@,
        "_variante_"@,
        "_variantes_"@,
        "_idprincipal_"@,
        "_idprincipal"@,
    ]
}

/// El nombre (recortado) es de un campo de sistema: empieza por `_` o es uno
/// de los nombres de sistema (sin distinguir mayúsculas).
pub open spec fn es_sistema_spec(nombre: Seq<char>) -> bool {
    let n = recortado(nombre);
    (n.len() > 0 && n[0] == '_') || exists|i: int|
        0 <= i < nombres_sistema().len() && igual_sin_caja(#[trigger] nombres_sistema()[i], n)
}

/// `true` si `nombre` es un campo de sistema (no de usuario): cualquier
/// nombre que empiece por `_` lo es.
pub fn es_campo_sistema(nombre: &str) -> (r: bool)
    ensures
        r == es_sistema_spec(nombre@),
{
    let n = recortar(&caracteres(nombre));
    let r = n.len() > 0 && n[0] == '_';
    proof {
        reveal_strlit("_imagen_");
        reveal_strlit("_id_");
        reveal_strlit("_auxiliar_");
        reveal_strlit("_variante_");
        reveal_strlit("_variantes_");
        reveal_strlit("_idprincipal_");
        reveal_strlit("_idprincipal");
        if !r {
            assert forall|i: int| 0 <= i < nombres_sistema().len() implies !igual_sin_caja(
                #[trigger] nombres_sistema()[i],
                n@,
            ) by {
                let s = nombres_sistema()[i];
                assert(s[0] == '_');
                if igual_sin_caja(s, n@) {
                    assert(minusculas(s).len() == minusculas(n@).len());
                    assert(minusculas(s)[0] == minuscula(s[0]));
                    assert(minusculas(n@)[0] == minuscula(n@[0]));
                }
            }
        }
    }
    r
}

/// Interpretación de un booleano exportado: `1`, `-1`, `true` o `yes` (sin
/// distinguir mayúsculas, sin blancos en los extremos) son verdaderos.
pub open spec fn jet_bool_spec(s: Seq<char>) -> bool {
    let v = recortado(s);
    v == "1"@ || v == "-1"@ || igual_sin_caja(v, "true"@) || igual_sin_caja(v, "yes"@)
}

/// Interpreta un booleano tal como lo exporta el álbum de origen (`1`/`0`;
/// también `True`/`False`, `-1` y `yes`).
pub fn jet_bool(s: &str) -> (r: bool)
    ensures
        r == jet_bool_spec(s@),
{
    let v = recortar(&caracteres(s));
    let uno = caracteres("1");
    let menos_uno = caracteres("-1");
    let verdad = caracteres("true");
    let si = caracteres("yes");
    iguales(&v, &uno) || iguales(&v, &menos_uno) || iguales_sin_caja(&v, &verdad)
        || iguales_sin_caja(&v, &si)
}

/// Cifra decimal ASCII.
pub open spec fn es_cifra(c: char) -> bool {
    '0' <= c <= '9'
}

/// Todos los caracteres son cifras.
pub open spec fn solo_cifras(d: Seq<char>) -> bool {
    forall|i: int| 0 <= i < d.len() ==> es_cifra(#[trigger] d[i])
}

/// Valor de una secuencia de cifras decimales.
pub open spec fn valor_cifras(d: Seq<char>) -> int
    decreases d.len(),
{
    if d.len() == 0 {
        0
    } else {
        valor_cifras(d.drop_last()) * 10 + (d.last() as int - '0' as int)
    }
}

/// Entero que denota `s` según `i64::from_str`: signo opcional (`+` o `-`)
/// seguido de al menos una cifra, dentro del rango de `i64`.
pub open spec fn entero_spec(s: Seq<char>) -> Option<int> {
    let con_signo = s.len() > 0 && (s[0] == '+' || s[0] == '-');
    let d = if con_signo {
        s.drop_first()
    } else {
        s
    };
    let v = if con_signo && s[0] == '-' {
        -valor_cifras(d)
    } else {
        valor_cifras(d)
    };
    if d.len() > 0 && solo_cifras(d) && i64::MIN <= v <= i64::MAX {
        Some(v)
    } else {
        None
    }
}

/// El entero de un texto con blancos en los extremos, o 0.
pub open spec fn entero_o_cero(s: Seq<char>) -> int {
    match entero_spec(recortado(s)) {
        Some(v) => v,
        None => 0,
    }
}

proof fn lema_valor_creciente(d: Seq<char>, k: int)
    requires
        0 <= k <= d.len(),
        solo_cifras(d),
    ensures
        valor_cifras(d.subrange(0, k)) <= valor_cifras(d),
        0 <= valor_cifras(d.subrange(0, k)),
    decreases d.len() - k,
{
    if k < d.len() {
        lema_valor_creciente(d, k + 1);
        assert(d.subrange(0, k + 1).drop_last() =~= d.subrange(0, k));
        assert(es_cifra(d[k]));
    } else {
        assert(d.subrange(0, k) =~= d);
    }
    lema_valor_no_negativo(d.subrange(0, k));
}

proof fn lema_valor_no_negativo(d: Seq<char>)
    requires
        solo_cifras(d),
    ensures
        0 <= valor_cifras(d),
    decreases d.len(),
{
    if d.len() > 0 {
        assert(solo_cifras(d.drop_last())) by {
            assert forall|i: int| 0 <= i < d.drop_last().len() implies es_cifra(
                #[trigger] d.drop_last()[i],
            ) by {
                assert(d.drop_last()[i] == d[i]);
            }
        }
        lema_valor_no_negativo(d.drop_last());
        assert(es_cifra(d[d.len() - 1]));
    }
}

/// Entero de un texto según `i64::from_str`, si lo denota.
pub fn entero_de(s: &Vec<char>) -> (r: Option<i64>)
    ensures
        match entero_spec(s@) {
            Some(v) => r == Some(v as i64),
            None => r is None,
        },
{
    let con_signo = s.len() > 0 && (s[0] == '+' || s[0] == '-');
    let negativo = con_signo && s[0] == '-';
    let inicio: usize = if con_signo {
        1
    } else {
        0
    };
    let ghost d = s@.subrange(inicio as int, s.len() as int);
    assert(con_signo ==> d =~= s@.drop_first());
    assert(!con_signo ==> d =~= s@);
    if inicio >= s.len() {
        return None;
    }
    let mut acc: i128 = 0;
    let mut k: usize = inicio;
    while k < s.len()
        invariant
            inicio <= k <= s.len(),
            inicio < s.len(),
            d == s@.subrange(inicio as int, s.len() as int),
            d == (if s@.len() > 0 && (s@[0] == '+' || s@[0] == '-') {
                s@.drop_first()
            } else {
                s@
            }),
            negativo == (s@.len() > 0 && s@[0] == '-'),
            acc == valor_cifras(s@.subrange(inicio as int, k as int)),
            0 <= acc <= 0x8000_0000_0000_0000,
            solo_cifras(s@.subrange(inicio as int, k as int)),
        decreases s.len() - k,
    {
        let c = s[k];
        let ghost pre = s@.subrange(inicio as int, k as int);
        let ghost post = s@.subrange(inicio as int, k + 1);
        assert(post.drop_last() =~= pre);
        assert(post.last() == c);
        if !('0' <= c && c <= '9') {
            assert(d[k - inicio] == c);
            assert(!es_cifra(d[k - inicio]));
            assert(!solo_cifras(d));
            return None;
        }
        let cifra: i128 = (c as u32 - '0' as u32) as i128;
        acc = acc * 10 + cifra;
        assert(solo_cifras(post)) by {
            assert forall|i: int| 0 <= i < post.len() implies es_cifra(#[trigger] post[i]) by {
                if i < pre.len() {
                    assert(post[i] == pre[i]);
                }
            }
        }
        if acc > 0x8000_0000_0000_0000 {
            proof {
                assert(d.subrange(0, (k + 1 - inicio) as int) =~= post);
                assert(acc == valor_cifras(post));
                if solo_cifras(d) {
                    lema_valor_creciente(d, (k + 1 - inicio) as int);
                    assert(valor_cifras(d) > 0x8000_0000_0000_0000);
                }
            }
            return None;
        }
        k += 1;
    }
    assert(s@.subrange(inicio as int, k as int) =~= d);
    if negativo {
        Some((0 - acc) as i64)
    } else if acc <= 0x7FFF_FFFF_FFFF_FFFF {
        Some(acc as i64)
    } else {
        None
    }
}

/// Convierte un texto (con posibles blancos) a entero, o 0 si no lo es.
pub fn jet_entero(s: &str) -> (r: i64)
    ensures
        r == entero_o_cero(s@),
{
    let t = recortar(&caracteres(s));
    match entero_de(&t) {
        Some(v) => v,
        None => 0,
    }
}


/// Vista de un campo mapeado desde `propiedades`.
pub struct CampoSpec {
    pub nombre: Seq<char>,
    pub tabla: Tabla,
    pub tipo: TipoCampo,
    pub decimales: u8,
    pub totalizable: bool,
    pub formula: Option<Seq<char>>,
    pub visible: bool,
    pub modificable: bool,
    pub orden_visible: i32,
}

/// Una fila de `propiedades` ya interpretada como definición de campo.
#[derive(Debug, Clone)]
pub struct CampoOrigen {
    /// Definición lista para crear el campo.
    pub def: CampoNuevo,
    /// Nombre tal cual aparece en `propiedades` (para casar las columnas de
    /// datos).
    pub nombre_original: String,
}

/// Vista de un campo de origen.
pub open spec fn vista_origen(c: CampoOrigen) -> CampoSpec {
    CampoSpec {
        nombre: c.def.nombre@,
        tabla: c.def.tabla,
        tipo: c.def.tipo,
        decimales: c.def.decimales,
        totalizable: c.def.totalizable,
        formula: match c.def.formula {
            Some(f) => Some(f@),
            None => None,
        },
        visible: c.def.visible,
        modificable: c.def.modificable,
        orden_visible: c.def.orden_visible,
    }
}

/// Posición de columna como entero.
pub open spec fn vista_idx(o: Option<usize>) -> Option<int> {
    match o {
        Some(i) => Some(i as int),
        None => None,
    }
}

/// Celda `idx` de una fila, o vacía si no hay columna o la fila es corta.
pub open spec fn celda_spec(fila: Seq<Seq<char>>, idx: Option<int>) -> Seq<char> {
    match idx {
        Some(i) => if 0 <= i < fila.len() {
            fila[i]
        } else {
            Seq::empty()
        },
        None => Seq::empty(),
    }
}

/// Booleano de la columna `col`, o `defecto` si la tabla no tiene esa columna.
pub open spec fn bool_columna(
    cab: Seq<Seq<char>>,
    fila: Seq<Seq<char>>,
    col: Seq<char>,
    defecto: bool,
) -> bool {
    match posicion_columna(cab, col) {
        Some(i) => jet_bool_spec(celda_spec(fila, Some(i))),
        None => defecto,
    }
}

/// Entero de la columna `col` (0 si falta o no es un entero).
pub open spec fn entero_columna(cab: Seq<Seq<char>>, fila: Seq<Seq<char>>, col: Seq<char>) -> int {
    entero_o_cero(celda_spec(fila, posicion_columna(cab, col)))
}

/// `v` acotado a `[lo, hi]`.
pub open spec fn acotar(v: int, lo: int, hi: int) -> int {
    if v < lo {
        lo
    } else if v > hi {
        hi
    } else {
        v
    }
}

/// El campo de usuario que describe una fila de `propiedades`, si la fila es
/// de un campo de usuario (nombre no vacío y no de sistema). Un tipo
/// desconocido se trata como texto; solo un calculado conserva su fórmula
/// (recortada, si no es vacía); sin columna `Enprincipal`, `Visible` o
/// `Modificable` se asume verdadero; sin `totalizable`, falso.
pub open spec fn campo_de_fila(cab: Seq<Seq<char>>, fila: Seq<Seq<char>>) -> Option<CampoSpec> {
    let nombre = recortado(celda_spec(fila, posicion_columna(cab, "Nombre"@)));
    if nombre.len() == 0 || es_sistema_spec(nombre) {
        None
    } else {
        let tipo = match tipo_de_jet(entero_columna(cab, fila, "Tipo"@)) {
            Some(t) => t,
            None => TipoCampo::Texto,
        };
        let f = recortado(celda_spec(fila, posicion_columna(cab, "sInfo"@)));
        Some(
            CampoSpec {
                nombre,
                tabla: if bool_columna(cab, fila, "Enprincipal"@, true) {
                    Tabla::Principal
                } else {
                    Tabla::Variantes
                },
                tipo,
                decimales: acotar(entero_columna(cab, fila, "decimales"@), 0, 255) as u8,
                totalizable: bool_columna(cab, fila, "totalizable"@, false),
                formula: if tipo == TipoCampo::Calculado && f.len() > 0 {
                    Some(f)
                } else {
                    None
                },
                visible: bool_columna(cab, fila, "Visible"@, true),
                modificable: bool_columna(cab, fila, "Modificable"@, true),
                orden_visible: entero_columna(cab, fila, "OrdenVisible"@) as i32,
            },
        )
    }
}

/// Los campos de usuario de las filas `filas`, en orden.
pub open spec fn campos_de(cab: Seq<Seq<char>>, filas: Seq<Seq<Seq<char>>>) -> Seq<CampoSpec>
    decreases filas.len(),
{
    if filas.len() == 0 {
        Seq::empty()
    } else {
        let previo = campos_de(cab, filas.drop_last());
        match campo_de_fila(cab, filas.last()) {
            Some(c) => previo.push(c),
            None => previo,
        }
    }
}

/// Celda `idx` de una fila como caracteres.
fn celda(fila: &Vec<String>, idx: Option<usize>) -> (r: Vec<char>)
    ensures
        r@ == celda_spec(vista_fila(fila@), vista_idx(idx)),
{
    match idx {
        Some(i) => {
            if i < fila.len() {
                caracteres(fila[i].as_str())
            } else {
                Vec::new()
            }
        },
        None => Vec::new(),
    }
}

/// Booleano de una columna, o `defecto` si la columna no existe.
fn bool_de(fila: &Vec<String>, idx: Option<usize>, defecto: bool) -> (r: bool)
    ensures
        r == match vista_idx(idx) {
            Some(i) => jet_bool_spec(celda_spec(vista_fila(fila@), Some(i))),
            None => defecto,
        },
{
    match idx {
        Some(_) => {
            let c = celda(fila, idx);
            jet_bool(cadena(&c).as_str())
        },
        None => defecto,
    }
}

/// Entero de una celda, o 0.
fn entero_celda(fila: &Vec<String>, idx: Option<usize>) -> (r: i64)
    ensures
        r == entero_o_cero(celda_spec(vista_fila(fila@), vista_idx(idx))),
{
    let c = celda(fila, idx);
    jet_entero(cadena(&c).as_str())
}

/// Lee la tabla `propiedades` y devuelve los campos de usuario (sin los de
/// sistema), en el orden en que aparecen.
pub fn mapear_campos(props: &TablaCsv) -> (r: Vec<CampoOrigen>)
    ensures
        r@.map_values(|c: CampoOrigen| vista_origen(c)) == campos_de(
            vista_fila(props.cabecera@),
            props.filas@.map_values(|f: Vec<String>| vista_fila(f@)),
        ),
        forall|i: int|
            0 <= i < r@.len() ==> (#[trigger] r@[i]).nombre_original@ == r@[i].def.nombre@
                && r@[i].def.formato is None,
{
    let ghost cab = vista_fila(props.cabecera@);
    let ghost filas = props.filas@.map_values(|f: Vec<String>| vista_fila(f@));
    let i_nombre = props.indice("Nombre");
    let i_tipo = props.indice("Tipo");
    let i_dec = props.indice("decimales");
    let i_tot = props.indice("totalizable");
    let i_sinfo = props.indice("sInfo");
    let i_enppal = props.indice("Enprincipal");
    let i_mod = props.indice("Modificable");
    let i_vis = props.indice("Visible");
    let i_orden = props.indice("OrdenVisible");
    let mut salida: Vec<CampoOrigen> = Vec::new();
    let mut k: usize = 0;
    assert(salida@.map_values(|c: CampoOrigen| vista_origen(c)) =~= campos_de(cab, filas.subrange(0, 0)));
    while k < props.filas.len()
        invariant
            k <= props.filas.len(),
            cab == vista_fila(props.cabecera@),
            filas == props.filas@.map_values(|f: Vec<String>| vista_fila(f@)),
            vista_idx(i_nombre) == posicion_columna(cab, "Nombre"@),
            vista_idx(i_tipo) == posicion_columna(cab, "Tipo"@),
            vista_idx(i_dec) == posicion_columna(cab, "decimales"@),
            vista_idx(i_tot) == posicion_columna(cab, "totalizable"@),
            vista_idx(i_sinfo) == posicion_columna(cab, "sInfo"@),
            vista_idx(i_enppal) == posicion_columna(cab, "Enprincipal"@),
            vista_idx(i_mod) == posicion_columna(cab, "Modificable"@),
            vista_idx(i_vis) == posicion_columna(cab, "Visible"@),
            vista_idx(i_orden) == posicion_columna(cab, "OrdenVisible"@),
            salida@.map_values(|c: CampoOrigen| vista_origen(c)) == campos_de(
                cab,
                filas.subrange(0, k as int),
            ),
            forall|i: int|
                0 <= i < salida@.len() ==> (#[trigger] salida@[i]).nombre_original@
                    == salida@[i].def.nombre@ && salida@[i].def.formato is None,
        decreases props.filas.len() - k,
    {
        let fila = &props.filas[k];
        let ghost vf = vista_fila(fila@);
        assert(filas[k as int] == vf);
        assert(filas.subrange(0, k + 1).drop_last() =~= filas.subrange(0, k as int));
        let ghost s0 = salida@.map_values(|c: CampoOrigen| vista_origen(c));
        let nombre_v = recortar(&celda(fila, i_nombre));
        let nombre = cadena(&nombre_v);
        if nombre_v.len() == 0 || es_campo_sistema(nombre.as_str()) {
            proof {
                assert(campo_de_fila(cab, vf) is None);
            }
            k += 1;
            continue;
        }
        let tipo_byte = entero_celda(fila, i_tipo);
        let tipo = match TipoCampo::from_jet(tipo_byte) {
            Some(t) => t,
            None => TipoCampo::Texto,
        };
        let en_principal = bool_de(fila, i_enppal, true);
        let tabla = if en_principal {
            Tabla::Principal
        } else {
            Tabla::Variantes
        };
        let sinfo = recortar(&celda(fila, i_sinfo));
        let formula = if tipo == TipoCampo::Calculado && sinfo.len() > 0 {
            Some(cadena(&sinfo))
        } else {
            None
        };
        let visible = bool_de(fila, i_vis, true);
        let modificable = bool_de(fila, i_mod, true);
        let dec = entero_celda(fila, i_dec);
        let decimales: u8 = if dec < 0 {
            0
        } else if dec > 255 {
            255
        } else {
            dec as u8
        };
        let totalizable = bool_de(fila, i_tot, false);
        let orden = entero_celda(fila, i_orden);
        let def = CampoNuevo {
            nombre: nombre.clone(),
            tabla,
            tipo,
            decimales,
            totalizable,
            formula,
            visible,
            modificable,
            orden_visible: orden as i32,
            formato: None,
        };
        let c = CampoOrigen { def, nombre_original: nombre };
        proof {
            assert(campo_de_fila(cab, vf) == Some(vista_origen(c)));
        }
        salida.push(c);
        assert(salida@.map_values(|c: CampoOrigen| vista_origen(c)) =~= s0.push(vista_origen(c)));
        k += 1;
    }
    assert(filas.subrange(0, props.filas.len() as int) =~= filas);
    salida
}


/// Texto numérico con la coma decimal normalizada: con coma y punto, el
/// punto es separador de miles (se quita) y la coma es decimal; con solo
/// coma, la coma es decimal.
pub open spec fn numero_normalizado_spec(s: Seq<char>) -> Option<Seq<char>> {
    let t = recortado(s);
    if t.len() == 0 {
        None
    } else if t.contains(',') && t.contains('.') {
        Some(t.filter(|c: char| c != '.').map_values(|c: char| if c == ',' { '.' } else { c }))
    } else if t.contains(',') {
        Some(t.map_values(|c: char| if c == ',' { '.' } else { c }))
    } else {
        Some(t)
    }
}

/// Prepara un número que puede venir con coma decimal (`1.234,50`) para
/// leerlo con punto decimal (`1234.50`); `None` si el texto está vacío.
pub fn numero_normalizado(s: &str) -> (r: Option<String>)
    ensures
        match numero_normalizado_spec(s@) {
            Some(t) => r matches Some(x) && x@ == t,
            None => r is None,
        },
{
    let t = recortar(&caracteres(s));
    if t.len() == 0 {
        return None;
    }
    let mut coma = false;
    let mut punto = false;
    let mut i: usize = 0;
    while i < t.len()
        invariant
            i <= t.len(),
            coma == t@.subrange(0, i as int).contains(','),
            punto == t@.subrange(0, i as int).contains('.'),
        decreases t.len() - i,
    {
        let ghost pre = t@.subrange(0, i as int);
        let ghost post = t@.subrange(0, i + 1);
        assert(post =~= pre.push(t@[i as int]));
        if t[i] == ',' {
            coma = true;
        }
        if t[i] == '.' {
            punto = true;
        }
        proof {
            lema_contiene_push(pre, t@[i as int], ',');
            lema_contiene_push(pre, t@[i as int], '.');
        }
        i += 1;
    }
    assert(t@.subrange(0, t.len() as int) =~= t@);
    let quitar_puntos = coma && punto;
    let mut out: Vec<char> = Vec::new();
    let mut j: usize = 0;
    let ghost esperado = if quitar_puntos {
        t@.filter(|c: char| c != '.')
    } else {
        t@
    };
    while j < t.len()
        invariant
            j <= t.len(),
            out@ == (if quitar_puntos {
                t@.subrange(0, j as int).filter(|c: char| c != '.')
            } else {
                t@.subrange(0, j as int)
            }).map_values(|c: char| if c == ',' && coma { '.' } else { c }),
        decreases t.len() - j,
    {
        let ghost pre = t@.subrange(0, j as int);
        let ghost post = t@.subrange(0, j + 1);
        assert(post.drop_last() =~= pre);
        let c = t[j];
        proof {
            reveal_with_fuel(Seq::filter, 1);
        }
        if !(quitar_puntos && c == '.') {
            out.push(if c == ',' && coma { '.' } else { c });
        }
        proof {
            let f = |c: char| if c == ',' && coma { '.' } else { c };
            if quitar_puntos {
                let p = |c: char| c != '.';
                assert(post.filter(p) == if p(post.last()) {
                    pre.filter(p).push(post.last())
                } else {
                    pre.filter(p)
                });
                assert(out@ =~= post.filter(p).map_values(f));
            } else {
                assert(out@ =~= post.map_values(f));
            }
        }
        j += 1;
    }
    assert(t@.subrange(0, t.len() as int) =~= t@);
    proof {
        if !coma {
            assert(out@ =~= t@);
        }
    }
    Some(cadena(&out))
}

} // verus!
