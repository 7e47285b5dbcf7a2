//! Preparación de una importación: normalización de celdas, casamiento de
//! las columnas del archivo con los campos del álbum y preparación de las
//! filas por llave (la primera fila de cada llave gana).
//!
//! La forma canónica de la llave de un campo numérico se calcula con números
//! de coma flotante fuera de la biblioteca; aquí llega ya calculada, una por
//! fila.

use vstd::prelude::*;
use vstd::string::*;
use crate::db::query_builder::{unir, unir_exec};
use crate::error::{MicError, MicErrorSpec};
use crate::importar::celdas::{campo_columna, fecha_celda, numero_celda, parsear_fecha, parsear_numero, posicion_columna_campo};
use crate::migrador::migrar::{a_minusculas, minusculas_unicode};
use crate::model::{CampoDef, Tabla, TipoCampo};
use crate::texto::{
    cadena, caracteres, concatenar, concatenar3, decimal, decimal_spec, igual_sin_caja,
    iguales_sin_caja, recortado, recortar, tramo,
};

verus! {

// ---------------------------------------------------------------------------
// Celdas
// ---------------------------------------------------------------------------

/// Una celda normalizada contra el tipo de su campo.
#[derive(Debug, Clone)]
pub enum CeldaNorm {
    /// Celda vacía: el campo no se escribe.
    Omitir,
    /// Texto (o fecha ISO) a escribir.
    Texto(String),
    /// Número a escribir, como el texto que acepta `f64::from_str`.
    Numero(String),
    /// Valores de un multidato (sin blancos en los extremos, sin vacíos).
    Multi(Vec<String>),
}

/// Vista de una celda normalizada.
pub enum CeldaSpec {
    Omitir,
    Texto(Seq<char>),
    Numero(Seq<char>),
    Multi(Seq<Seq<char>>),
}

pub open spec fn vista_celda(c: CeldaNorm) -> CeldaSpec {
    match c {
        CeldaNorm::Omitir => CeldaSpec::Omitir,
        CeldaNorm::Texto(s) => CeldaSpec::Texto(s@),
        CeldaNorm::Numero(s) => CeldaSpec::Numero(s@),
        CeldaNorm::Multi(v) => CeldaSpec::Multi(v@.map_values(|x: String| x@)),
    }
}

/// Retorno de carro o salto de línea.
pub open spec fn es_crlf(c: char) -> bool {
    c == '\r' || c == '\n'
}

/// Sin retornos ni saltos de línea al principio.
pub open spec fn sin_crlf_inicio(s: Seq<char>) -> Seq<char>
    decreases s.len(),
{
    if s.len() > 0 && es_crlf(s[0]) {
        sin_crlf_inicio(s.drop_first())
    } else {
        s
    }
}

/// Sin retornos ni saltos de línea al final.
pub open spec fn sin_crlf_fin(s: Seq<char>) -> Seq<char>
    decreases s.len(),
{
    if s.len() > 0 && es_crlf(s.last()) {
        sin_crlf_fin(s.drop_last())
    } else {
        s
    }
}

/// Trozos de `s` separados por `|` (siempre al menos uno).
pub open spec fn piezas(s: Seq<char>) -> Seq<Seq<char>>
    decreases s.len(),
{
    if s.len() == 0 {
        seq![Seq::empty()]
    } else {
        let p = piezas(s.drop_last());
        if s.last() == '|' {
            p.push(Seq::empty())
        } else {
            p.update(p.len() - 1, p.last().push(s.last()))
        }
    }
}

/// Los trozos, sin blancos en los extremos, que no quedan vacíos.
pub open spec fn no_vacios(ps: Seq<Seq<char>>) -> Seq<Seq<char>>
    decreases ps.len(),
{
    if ps.len() == 0 {
        Seq::empty()
    } else if recortado(ps.last()).len() == 0 {
        no_vacios(ps.drop_last())
    } else {
        no_vacios(ps.drop_last()).push(recortado(ps.last()))
    }
}

pub open spec fn msg_numero_invalido(limpio: Seq<char>, nombre: Seq<char>) -> Seq<char> {
    "'"@ + limpio + "' no es un número válido para '"@ + nombre + "'"@
}

pub open spec fn msg_fecha_invalida(limpio: Seq<char>, nombre: Seq<char>) -> Seq<char> {
    "fecha inválida '"@ + limpio + "' en '"@ + nombre + "' (use AAAA-MM-DD o dd/MM/aaaa)"@
}

/// Normalización de una celda (sin los retornos y saltos de línea de los
/// extremos) según el tipo del campo: un calculado nunca se importa; un
/// multidato se parte por `|`; una celda en blanco se omite; el texto se
/// escribe sin blancos en los extremos; el número y la fecha, normalizados,
/// o un mensaje de error si no se pueden leer.
pub open spec fn celda_spec(texto: Seq<char>, campo: CampoDef, separador: u8) -> Result<
    CeldaSpec,
    Seq<char>,
> {
    let limpio = sin_crlf_fin(sin_crlf_inicio(texto));
    if campo.tipo == TipoCampo::Calculado {
        Ok(CeldaSpec::Omitir)
    } else if campo.tipo == TipoCampo::Multidato {
        let vs = no_vacios(piezas(limpio));
        if vs.len() == 0 {
            Ok(CeldaSpec::Omitir)
        } else {
            Ok(CeldaSpec::Multi(vs))
        }
    } else if recortado(limpio).len() == 0 {
        Ok(CeldaSpec::Omitir)
    } else if campo.tipo == TipoCampo::Texto {
        Ok(CeldaSpec::Texto(recortado(limpio)))
    } else if campo.tipo == TipoCampo::Numerico || campo.tipo == TipoCampo::Moneda {
        match numero_celda(limpio, separador) {
            Some(n) => Ok(CeldaSpec::Numero(n)),
            None => Err(msg_numero_invalido(limpio, campo.nombre@)),
        }
    } else {
        match fecha_celda(limpio) {
            Some(f) => Ok(CeldaSpec::Texto(f)),
            None => Err(msg_fecha_invalida(limpio, campo.nombre@)),
        }
    }
}

/// Vista del resultado de normalizar una celda.
pub open spec fn vista_norm(r: Result<CeldaNorm, String>) -> Result<CeldaSpec, Seq<char>> {
    match r {
        Ok(c) => Ok(vista_celda(c)),
        Err(m) => Err(m@),
    }
}

/// Valores de una celda multidato.
fn valores_multi(s: &Vec<char>) -> (r: Vec<String>)
    ensures
        r@.map_values(|x: String| x@) == no_vacios(piezas(s@)),
{
    let mut ps: Vec<Vec<char>> = Vec::new();
    ps.push(Vec::new());
    let mut i: usize = 0;
    assert(ps@.map_values(|v: Vec<char>| v@) =~= piezas(s@.subrange(0, 0)));
    while i < s.len()
        invariant
            i <= s.len(),
            ps@.len() >= 1,
            ps@.map_values(|v: Vec<char>| v@) == piezas(s@.subrange(0, i as int)),
        decreases s.len() - i,
    {
        assert(s@.subrange(0, i + 1).drop_last() =~= s@.subrange(0, i as int));
        let ghost p0 = ps@.map_values(|v: Vec<char>| v@);
        if s[i] == '|' {
            ps.push(Vec::new());
            assert(ps@.map_values(|v: Vec<char>| v@) =~= p0.push(Seq::empty()));
        } else {
            let mut u = ps.pop().unwrap();
            u.push(s[i]);
            ps.push(u);
            assert(ps@.map_values(|v: Vec<char>| v@) =~= p0.update(
                p0.len() - 1,
                p0.last().push(s@[i as int]),
            ));
        }
        i += 1;
    }
    assert(s@.subrange(0, s.len() as int) =~= s@);
    let ghost vp = ps@.map_values(|v: Vec<char>| v@);
    let mut r: Vec<String> = Vec::new();
    let mut j: usize = 0;
    assert(r@.map_values(|x: String| x@) =~= no_vacios(vp.subrange(0, 0)));
    while j < ps.len()
        invariant
            j <= ps.len(),
            vp == ps@.map_values(|v: Vec<char>| v@),
            r@.map_values(|x: String| x@) == no_vacios(vp.subrange(0, j as int)),
        decreases ps.len() - j,
    {
        assert(vp.subrange(0, j + 1).drop_last() =~= vp.subrange(0, j as int));
        assert(vp[j as int] == ps@[j as int]@);
        let t = recortar(&ps[j]);
        if t.len() > 0 {
            let ghost r0 = r@.map_values(|x: String| x@);
            r.push(cadena(&t));
            assert(r@.map_values(|x: String| x@) =~= r0.push(t@));
        }
        j += 1;
    }
    assert(vp.subrange(0, ps.len() as int) =~= vp);
    r
}

/// Normaliza el texto de una celda según el tipo del campo destino: vacío o
/// en blanco se omite; texto tal cual sin blancos en los extremos; número
/// sin símbolos ni separador de miles; fecha siempre en ISO; multidato
/// partido por `|`; un calculado nunca se importa.
pub fn normalizar_valor(texto: &str, campo: &CampoDef, separador: u8) -> (r: Result<
    CeldaNorm,
    String,
>)
    ensures
        vista_norm(r) == celda_spec(texto@, *campo, separador),
{
    let v = caracteres(texto);
    let mut ini: usize = 0;
    assert(v@.subrange(0, v.len() as int) =~= v@);
    while ini < v.len() && (v[ini] == '\r' || v[ini] == '\n')
        invariant
            ini <= v.len(),
            v@ == texto@,
            sin_crlf_inicio(v@) == sin_crlf_inicio(v@.subrange(ini as int, v.len() as int)),
        decreases v.len() - ini,
    {
        assert(v@.subrange(ini as int, v.len() as int).drop_first() =~= v@.subrange(
            ini + 1,
            v.len() as int,
        ));
        ini += 1;
    }
    let mut fin: usize = v.len();
    while fin > ini && (v[fin - 1] == '\r' || v[fin - 1] == '\n')
        invariant
            ini <= fin <= v.len(),
            v@ == texto@,
            sin_crlf_inicio(v@) == v@.subrange(ini as int, v.len() as int),
            sin_crlf_fin(sin_crlf_inicio(v@)) == sin_crlf_fin(v@.subrange(ini as int, fin as int)),
        decreases fin,
    {
        assert(v@.subrange(ini as int, fin as int).drop_last() =~= v@.subrange(
            ini as int,
            fin - 1,
        ));
        fin -= 1;
    }
    let limpio = tramo(&v, ini, fin);
    let ls = cadena(&limpio);
    match campo.tipo {
        TipoCampo::Calculado => Ok(CeldaNorm::Omitir),
        TipoCampo::Multidato => {
            let vs = valores_multi(&limpio);
            if vs.len() == 0 {
                Ok(CeldaNorm::Omitir)
            } else {
                Ok(CeldaNorm::Multi(vs))
            }
        },
        _ => {
            let t = recortar(&limpio);
            if t.len() == 0 {
                return Ok(CeldaNorm::Omitir);
            }
            match campo.tipo {
                TipoCampo::Texto => Ok(CeldaNorm::Texto(cadena(&t))),
                TipoCampo::Numerico | TipoCampo::Moneda => {
                    match parsear_numero(ls.as_str(), separador) {
                        Some(n) => Ok(CeldaNorm::Numero(n)),
                        None => {
                            let mut m = concatenar3("'", ls.as_str(), "' no es un número válido para '");
                            m.append(campo.nombre.as_str());
                            m.append("'");
                            Err(m)
                        },
                    }
                },
                _ => {
                    match parsear_fecha(ls.as_str()) {
                        Some(f) => Ok(CeldaNorm::Texto(f)),
                        None => {
                            let mut m = concatenar3("fecha inválida '", ls.as_str(), "' en '");
                            m.append(campo.nombre.as_str());
                            m.append("' (use AAAA-MM-DD o dd/MM/aaaa)");
                            Err(m)
                        },
                    }
                },
            }
        },
    }
}

/// Clave de una llave de texto: sin blancos en los extremos; `None` si queda
/// vacía.
pub open spec fn clave_textual_spec(t: Seq<char>) -> Option<Seq<char>> {
    if recortado(t).len() == 0 {
        None
    } else {
        Some(recortado(t))
    }
}

/// Forma canónica de la llave de una fila cuando el campo llave no es
/// numérico.
pub fn clave_textual(texto: &str) -> (r: Option<String>)
    ensures
        match clave_textual_spec(texto@) {
            Some(t) => r matches Some(s) && s@ == t,
            None => r is None,
        },
{
    let t = recortar(&caracteres(texto));
    if t.len() == 0 {
        None
    } else {
        Some(cadena(&t))
    }
}


// ---------------------------------------------------------------------------
// Columnas
// ---------------------------------------------------------------------------

/// El campo llave: el primer campo principal cuyo nombre es el pedido (sin
/// blancos en los extremos), sin distinguir mayúsculas.
pub open spec fn llave_spec(campos: Seq<CampoDef>, llave: Seq<char>) -> Option<int>
    decreases campos.len(),
{
    if campos.len() == 0 {
        None
    } else {
        match llave_spec(campos.drop_last(), llave) {
            Some(i) => Some(i),
            None => {
                let c = campos.last();
                if c.tabla == Tabla::Principal && igual_sin_caja(c.nombre@, recortado(llave)) {
                    Some(campos.len() - 1)
                } else {
                    None
                }
            },
        }
    }
}

/// Estado del recorrido de las columnas del archivo.
pub struct EstadoCols {
    /// Claves (sin blancos, en minúsculas) de las columnas ya vistas.
    pub vistos: Seq<Seq<char>>,
    /// Campo de cada columna (posición en la lista de campos), si se escribe.
    pub cols: Seq<Option<int>>,
    /// Avisos por columnas duplicadas.
    pub avisos: Seq<Seq<char>>,
    /// Alguna columna calculada se ignoró.
    pub calc: bool,
    /// Columna de la llave.
    pub llave: Option<int>,
}

pub open spec fn msg_llave_duplicada(nombre: Seq<char>) -> Seq<char> {
    "la columna llave '"@ + nombre + "' aparece duplicada en el archivo"@
}

pub open spec fn msg_columna_duplicada(col: Seq<char>) -> Seq<char> {
    "columna '"@ + col + "' duplicada en el archivo: se ignoran las repetidas"@
}

/// Recorrido de las columnas: una columna repetida (misma clave sin blancos
/// y en minúsculas) se ignora con un aviso, salvo que sea la de la llave, que
/// es un error; una columna que casa con la llave la marca; una calculada se
/// ignora; las demás que casan se escriben.
pub open spec fn columnas_spec(enc: Seq<Seq<char>>, campos: Seq<CampoDef>, nombre_llave: Seq<char>) -> Result<
    EstadoCols,
    Seq<char>,
>
    decreases enc.len(),
{
    if enc.len() == 0 {
        Ok(
            EstadoCols {
                vistos: Seq::empty(),
                cols: Seq::empty(),
                avisos: Seq::empty(),
                calc: false,
                llave: None,
            },
        )
    } else {
        match columnas_spec(enc.drop_last(), campos, nombre_llave) {
            Err(m) => Err(m),
            Ok(st) => {
                let i = enc.len() - 1;
                let col = enc.last();
                let k = minusculas_unicode(recortado(col));
                if st.vistos.contains(k) {
                    if igual_sin_caja(recortado(col), recortado(nombre_llave)) {
                        Err(msg_llave_duplicada(nombre_llave))
                    } else {
                        Ok(
                            EstadoCols {
                                avisos: st.avisos.push(msg_columna_duplicada(col)),
                                cols: st.cols.push(None),
                                ..st
                            },
                        )
                    }
                } else {
                    let vistos = st.vistos.push(k);
                    match campo_columna(campos, col) {
                        Some(j) => if igual_sin_caja(campos[j].nombre@, recortado(nombre_llave)) {
                            Ok(
                                EstadoCols {
                                    vistos,
                                    cols: st.cols.push(Some(j)),
                                    llave: Some(i),
                                    ..st
                                },
                            )
                        } else if campos[j].tipo == TipoCampo::Calculado {
                            Ok(EstadoCols { vistos, cols: st.cols.push(None), calc: true, ..st })
                        } else {
                            Ok(EstadoCols { vistos, cols: st.cols.push(Some(j)), ..st })
                        },
                        None => Ok(EstadoCols { vistos, cols: st.cols.push(None), ..st }),
                    }
                }
            },
        }
    }
}

/// Encabezados que no casan con ningún campo.
pub open spec fn no_reconocidas(enc: Seq<Seq<char>>, campos: Seq<CampoDef>) -> Seq<Seq<char>>
    decreases enc.len(),
{
    if enc.len() == 0 {
        Seq::empty()
    } else if campo_columna(campos, enc.last()) is None {
        no_reconocidas(enc.drop_last(), campos).push(enc.last())
    } else {
        no_reconocidas(enc.drop_last(), campos)
    }
}

/// Partes unidas con un separador.
pub open spec fn unidas(partes: Seq<Seq<char>>, sep: Seq<char>) -> Seq<char>
    decreases partes.len(),
{
    if partes.len() == 0 {
        Seq::empty()
    } else if partes.len() == 1 {
        partes[0]
    } else {
        unidas(partes.drop_last(), sep) + sep + partes.last()
    }
}

/// Campos (posiciones) que se escriben, sin repetir identificador, de la
/// clase `multi` (multidatos o escalares), sin la llave ni los calculados.
pub open spec fn campos_clase(
    cols: Seq<Option<int>>,
    campos: Seq<CampoDef>,
    nombre_llave: Seq<char>,
    multi: bool,
) -> Seq<int>
    decreases cols.len(),
{
    if cols.len() == 0 {
        Seq::empty()
    } else {
        let previo = campos_clase(cols.drop_last(), campos, nombre_llave, multi);
        match cols.last() {
            Some(j) => {
                let c = campos[j];
                if igual_sin_caja(c.nombre@, recortado(nombre_llave)) || c.tipo == TipoCampo::Calculado
                    || (c.tipo == TipoCampo::Multidato) != multi || exists|x: int|
                    0 <= x < previo.len() && #[trigger] campos[previo[x]].id == c.id {
                    previo
                } else {
                    previo.push(j)
                }
            },
            None => previo,
        }
    }
}

/// Resultado del casamiento de columnas.
pub struct Casado {
    /// Campo de cada columna, si se escribe o es la llave.
    pub col_a_campo: Vec<Option<CampoDef>>,
    /// Columna de la llave.
    pub indice_llave: usize,
    /// La llave es numérica (número o moneda).
    pub llave_numerica: bool,
    /// Nombre del campo llave.
    pub nombre_llave: String,
    /// Campos escalares que se escriben (sin la llave ni calculados).
    pub campos_escritura: Vec<CampoDef>,
    /// Campos multidato presentes en el archivo.
    pub campos_multidato: Vec<CampoDef>,
    /// Avisos globales.
    pub avisos: Vec<String>,
}

pub open spec fn msg_llave_inexistente(llave: Seq<char>) -> Seq<char> {
    "el campo llave '"@ + llave + "' no existe en el álbum"@
}

pub open spec fn msg_llave_tipo(nombre: Seq<char>) -> Seq<char> {
    "el campo llave '"@ + nombre + "' no puede ser calculado ni multidato"@
}

pub open spec fn msg_llave_ausente(nombre: Seq<char>) -> Seq<char> {
    "la columna llave '"@ + nombre + "' no está presente en el archivo"@
}

/// Lo que el casamiento de columnas devuelve, salvo error.
pub open spec fn casado_ok(
    r: Casado,
    enc: Seq<Seq<char>>,
    campos: Seq<CampoDef>,
    l: int,
    st: EstadoCols,
) -> bool {
    let nl = campos[l].nombre@;
    let nr = no_reconocidas(enc, campos);
    &&& r.nombre_llave@ == nl
    &&& r.llave_numerica == (campos[l].tipo == TipoCampo::Numerico || campos[l].tipo
        == TipoCampo::Moneda)
    &&& st.llave == Some(r.indice_llave as int)
    &&& r.col_a_campo@ == st.cols.map_values(|o: Option<int>| match o {
        Some(j) => Some(campos[j]),
        None => None,
    })
    &&& r.campos_escritura@ == campos_clase(st.cols, campos, nl, false).map_values(
        |j: int| campos[j],
    )
    &&& r.campos_multidato@ == campos_clase(st.cols, campos, nl, true).map_values(
        |j: int| campos[j],
    )
    &&& r.avisos@.map_values(|s: String| s@) == st.avisos + (if nr.len() > 0 {
        seq!["columnas ignoradas (no coinciden con ningún campo): "@ + unidas(nr, ", "@)]
    } else {
        Seq::empty()
    }) + (if st.calc {
        seq!["columnas calculadas ignoradas: se recalculan automáticamente"@]
    } else {
        Seq::empty()
    })
}

/// Casa las columnas del archivo con los campos del álbum y valida la llave.
pub open spec fn casado_spec(
    r: Result<Casado, MicError>,
    enc: Seq<Seq<char>>,
    campos: Seq<CampoDef>,
    llave: Seq<char>,
) -> bool {
    match llave_spec(campos, llave) {
        None => r matches Err(e) && e@ == MicErrorSpec::Invalido(msg_llave_inexistente(llave)),
        Some(l) => if campos[l].tipo == TipoCampo::Calculado || campos[l].tipo
            == TipoCampo::Multidato {
            r matches Err(e) && e@ == MicErrorSpec::Invalido(msg_llave_tipo(campos[l].nombre@))
        } else {
            match columnas_spec(enc, campos, campos[l].nombre@) {
                Err(m) => r matches Err(e) && e@ == MicErrorSpec::Invalido(m),
                Ok(st) => if st.llave is None {
                    r matches Err(e) && e@ == MicErrorSpec::Invalido(
                        msg_llave_ausente(campos[l].nombre@),
                    )
                } else {
                    r matches Ok(c) && casado_ok(c, enc, campos, l, st)
                },
            }
        },
    }
}

/// Vista de una lista de textos.
pub open spec fn vista_textos(v: Seq<String>) -> Seq<Seq<char>> {
    v.map_values(|s: String| s@)
}

/// Vista de una lista de posiciones opcionales.
pub open spec fn vista_cols(v: Seq<Option<usize>>) -> Seq<Option<int>> {
    v.map_values(|o: Option<usize>| match o {
        Some(j) => Some(j as int),
        None => None,
    })
}

/// `true` si la lista contiene el texto.
pub(crate) fn contiene_texto(v: &Vec<String>, k: &String) -> (r: bool)
    ensures
        r == vista_textos(v@).contains(k@),
{
    let mut i: usize = 0;
    while i < v.len()
        invariant
            i <= v.len(),
            forall|m: int| 0 <= m < i ==> (#[trigger] v@[m])@ != k@,
        decreases v.len() - i,
    {
        if v[i] == *k {
            assert(vista_textos(v@)[i as int] == k@);
            return true;
        }
        i += 1;
    }
    assert forall|m: int| 0 <= m < vista_textos(v@).len() implies #[trigger] vista_textos(v@)[m]
        != k@ by {
        assert(vista_textos(v@)[m] == v@[m]@);
    }
    false
}

/// Añade un texto al final de una lista.
pub(crate) fn empujar_texto(v: &mut Vec<String>, s: String)
    ensures
        vista_textos(final(v)@) == vista_textos(old(v)@).push(s@),
{
    let ghost v0 = vista_textos(v@);
    v.push(s);
    assert(vista_textos(v@) =~= v0.push(s@));
}

/// Casa las columnas del archivo con los campos del álbum: valida que la
/// llave exista, sea principal y no sea calculada ni multidato, y que su
/// columna aparezca una sola vez; ignora con aviso las columnas repetidas,
/// las que no casan con ningún campo y las calculadas.
pub fn casar_columnas(encabezados: &[String], campos: &[CampoDef], campo_llave: &str) -> (r: Result<
    Casado,
    MicError,
>)
    ensures
        casado_spec(r, vista_textos(encabezados@), campos@, campo_llave@),
{
    let ghost enc = vista_textos(encabezados@);
    // Campo llave.
    let lt = recortar(&caracteres(campo_llave));
    let mut l: usize = 0;
    let mut hallada = false;
    while l < campos.len() && !hallada
        invariant
            l <= campos.len(),
            lt@ == recortado(campo_llave@),
            !hallada ==> llave_spec(campos@.subrange(0, l as int), campo_llave@) is None,
            hallada ==> 0 < l && llave_spec(campos@, campo_llave@) == Some(l - 1),
        decreases campos.len() - l, if hallada { 0int } else { 1int },
    {
        let ghost sub = campos@.subrange(0, l + 1);
        assert(sub.drop_last() =~= campos@.subrange(0, l as int));
        assert(sub.last() == campos@[l as int]);
        if campos[l].tabla == Tabla::Principal && iguales_sin_caja(
            &caracteres(campos[l].nombre.as_str()),
            &lt,
        ) {
            hallada = true;
            proof {
                lema_llave_prefijo(campos@, l + 1, campo_llave@);
            }
        }
        l += 1;
    }
    if !hallada {
        assert(campos@.subrange(0, l as int) =~= campos@);
        return Err(
            MicError::Invalido(
                concatenar3("el campo llave '", campo_llave, "' no existe en el álbum"),
            ),
        );
    }
    let l = l - 1;
    let llave_def = &campos[l];
    if llave_def.tipo == TipoCampo::Calculado || llave_def.tipo == TipoCampo::Multidato {
        return Err(
            MicError::Invalido(
                concatenar3(
                    "el campo llave '",
                    llave_def.nombre.as_str(),
                    "' no puede ser calculado ni multidato",
                ),
            ),
        );
    }
    let llave_numerica = llave_def.tipo == TipoCampo::Numerico || llave_def.tipo
        == TipoCampo::Moneda;
    let nombre_llave = llave_def.nombre.clone();
    let ghost nl = nombre_llave@;
    let nl_rec = recortar(&caracteres(nombre_llave.as_str()));
    // Columnas.
    let mut vistos: Vec<String> = Vec::new();
    let mut cols: Vec<Option<usize>> = Vec::new();
    let mut avisos: Vec<String> = Vec::new();
    let mut calc = false;
    let mut llave_col: Option<usize> = None;
    let mut i: usize = 0;
    assert(enc.subrange(0, 0) =~= Seq::<Seq<char>>::empty());
    assert(vista_textos(vistos@) =~= Seq::<Seq<char>>::empty());
    assert(vista_cols(cols@) =~= Seq::<Option<int>>::empty());
    assert(vista_textos(avisos@) =~= Seq::<Seq<char>>::empty());
    while i < encabezados.len()
        invariant
            i <= encabezados.len(),
            enc == vista_textos(encabezados@),
            nl == nombre_llave@,
            nl_rec@ == recortado(nl),
            l < campos@.len(),
            llave_spec(campos@, campo_llave@) == Some(l as int),
            nl == campos@[l as int].nombre@,
            campos@[l as int].tipo != TipoCampo::Calculado && campos@[l as int].tipo != TipoCampo::Multidato,
            columnas_spec(enc.subrange(0, i as int), campos@, nl) == Ok::<EstadoCols, Seq<char>>(
                EstadoCols {
                    vistos: vista_textos(vistos@),
                    cols: vista_cols(cols@),
                    avisos: vista_textos(avisos@),
                    calc,
                    llave: match llave_col {
                        Some(c) => Some(c as int),
                        None => None,
                    },
                },
            ),
            forall|m: int| 0 <= m < cols@.len() ==> (#[trigger] cols@[m] matches Some(j) ==> j < campos@.len()),
            llave_col matches Some(c) ==> c < encabezados.len(),
        decreases encabezados.len() - i,
    {
        let ghost sub = enc.subrange(0, i + 1);
        assert(sub.drop_last() =~= enc.subrange(0, i as int));
        assert(sub.last() == encabezados@[i as int]@);
        let col = &encabezados[i];
        let col_rec = recortar(&caracteres(col.as_str()));
        let k = a_minusculas(cadena(&col_rec).as_str());
        if contiene_texto(&vistos, &k) {
            if iguales_sin_caja(&col_rec, &nl_rec) {
                proof {
                    lema_cols_err(enc, i + 1, campos@, nl);
                }
                return Err(
                    MicError::Invalido(
                        concatenar3(
                            "la columna llave '",
                            nombre_llave.as_str(),
                            "' aparece duplicada en el archivo",
                        ),
                    ),
                );
            }
            empujar_texto(
                &mut avisos,
                concatenar3(
                    "columna '",
                    col.as_str(),
                    "' duplicada en el archivo: se ignoran las repetidas",
                ),
            );
            let ghost c0 = vista_cols(cols@);
            cols.push(None);
            assert(vista_cols(cols@) =~= c0.push(None));
        } else {
            empujar_texto(&mut vistos, k);
            let ghost c0 = vista_cols(cols@);
            match posicion_columna_campo(campos, col.as_str()) {
                Some(j) => {
                    if iguales_sin_caja(&caracteres(campos[j].nombre.as_str()), &nl_rec) {
                        llave_col = Some(i);
                        cols.push(Some(j));
                        assert(vista_cols(cols@) =~= c0.push(Some(j as int)));
                    } else if campos[j].tipo == TipoCampo::Calculado {
                        calc = true;
                        cols.push(None);
                        assert(vista_cols(cols@) =~= c0.push(None));
                    } else {
                        cols.push(Some(j));
                        assert(vista_cols(cols@) =~= c0.push(Some(j as int)));
                    }
                },
                None => {
                    cols.push(None);
                    assert(vista_cols(cols@) =~= c0.push(None));
                },
            }
        }
        i += 1;
    }
    assert(enc.subrange(0, encabezados.len() as int) =~= enc);
    let indice_llave = match llave_col {
        Some(c) => c,
        None => {
            return Err(
                MicError::Invalido(
                    concatenar3(
                        "la columna llave '",
                        nombre_llave.as_str(),
                        "' no está presente en el archivo",
                    ),
                ),
            );
        },
    };
    // Columnas no reconocidas.
    let mut nr: Vec<String> = Vec::new();
    let mut m: usize = 0;
    assert(vista_textos(nr@) =~= no_reconocidas(enc.subrange(0, 0), campos@));
    while m < encabezados.len()
        invariant
            m <= encabezados.len(),
            enc == vista_textos(encabezados@),
            vista_textos(nr@) == no_reconocidas(enc.subrange(0, m as int), campos@),
        decreases encabezados.len() - m,
    {
        let ghost sub = enc.subrange(0, m + 1);
        assert(sub.drop_last() =~= enc.subrange(0, m as int));
        assert(sub.last() == encabezados@[m as int]@);
        if posicion_columna_campo(campos, encabezados[m].as_str()).is_none() {
            empujar_texto(&mut nr, encabezados[m].clone());
        }
        m += 1;
    }
    assert(enc.subrange(0, encabezados.len() as int) =~= enc);
    let ghost av0 = vista_textos(avisos@);
    if nr.len() > 0 {
        let lista = unir_exec(&nr, ", ");
        empujar_texto(
            &mut avisos,
            concatenar("columnas ignoradas (no coinciden con ningún campo): ", lista.as_str()),
        );
    }
    let ghost av1 = vista_textos(avisos@);
    if calc {
        empujar_texto(
            &mut avisos,
            String::from_str("columnas calculadas ignoradas: se recalculan automáticamente"),
        );
    }
    proof {
        let nrs = no_reconocidas(enc, campos@);
        assert(av1 =~= av0 + (if nrs.len() > 0 {
            seq!["columnas ignoradas (no coinciden con ningún campo): "@ + unir(nrs, ", "@)]
        } else {
            Seq::<Seq<char>>::empty()
        }));
        lema_unidas(nrs, ", "@);
        assert(vista_textos(avisos@) =~= av1 + (if calc {
            seq!["columnas calculadas ignoradas: se recalculan automáticamente"@]
        } else {
            Seq::<Seq<char>>::empty()
        }));
        assert(vista_textos(avisos@) =~= av0 + (if nrs.len() > 0 {
            seq!["columnas ignoradas (no coinciden con ningún campo): "@ + unidas(nrs, ", "@)]
        } else {
            Seq::<Seq<char>>::empty()
        }) + (if calc {
            seq!["columnas calculadas ignoradas: se recalculan automáticamente"@]
        } else {
            Seq::<Seq<char>>::empty()
        }));
    }
    // Campos que se escriben.
    let mut esc: Vec<usize> = Vec::new();
    let mut mul: Vec<usize> = Vec::new();
    let ghost sc = vista_cols(cols@);
    let mut t: usize = 0;
    assert(sc.subrange(0, 0) =~= Seq::<Option<int>>::empty());
    while t < cols.len()
        invariant
            t <= cols.len(),
            sc == vista_cols(cols@),
            nl_rec@ == recortado(nl),
            forall|x: int| 0 <= x < cols@.len() ==> (#[trigger] cols@[x] matches Some(j) ==> j < campos@.len()),
            esc@.map_values(|j: usize| j as int) == campos_clase(sc.subrange(0, t as int), campos@, nl, false),
            mul@.map_values(|j: usize| j as int) == campos_clase(sc.subrange(0, t as int), campos@, nl, true),
            forall|x: int| 0 <= x < esc@.len() ==> (#[trigger] esc@[x]) < campos@.len(),
            forall|x: int| 0 <= x < mul@.len() ==> (#[trigger] mul@[x]) < campos@.len(),
        decreases cols.len() - t,
    {
        let ghost sub = sc.subrange(0, t + 1);
        assert(sub.drop_last() =~= sc.subrange(0, t as int));
        assert(sub.last() == sc[t as int]);
        match cols[t] {
            Some(j) => {
                let c = &campos[j];
                let es_llave = iguales_sin_caja(&caracteres(c.nombre.as_str()), &nl_rec);
                if !es_llave && c.tipo != TipoCampo::Calculado {
                    let multi = c.tipo == TipoCampo::Multidato;
                    let destino: &mut Vec<usize> = if multi { &mut mul } else { &mut esc };
                    let ghost d0 = destino@;
                    let mut repetido = false;
                    let mut x: usize = 0;
                    while x < destino.len()
                        invariant
                            x <= destino.len(),
                            d0 == destino@,
                            forall|y: int| 0 <= y < destino@.len() ==> (#[trigger] destino@[y]) < campos@.len(),
                            repetido <==> exists|y: int| 0 <= y < x && campos@[#[trigger] destino@[y] as int].id == c.id,
                        decreases destino.len() - x,
                    {
                        if campos[destino[x]].id == c.id {
                            repetido = true;
                        }
                        x += 1;
                    }
                    proof {
                        let pv = d0.map_values(|j: usize| j as int);
                        if repetido {
                            let y = choose|y: int| 0 <= y < d0.len() && campos@[#[trigger] d0[y] as int].id == c.id;
                            assert(campos@[pv[y]].id == c.id);
                        } else {
                            assert forall|y: int| 0 <= y < pv.len() implies #[trigger] campos@[pv[y]].id != c.id by {
                                assert(pv[y] == d0[y] as int);
                            }
                        }
                    }
                    if !repetido {
                        destino.push(j);
                        assert(destino@.map_values(|j: usize| j as int) =~= d0.map_values(|j: usize| j as int).push(j as int));
                    }
                }
            },
            None => {},
        }
        t += 1;
    }
    assert(sc.subrange(0, cols.len() as int) =~= sc);
    let mut campos_escritura: Vec<CampoDef> = Vec::new();
    let mut u: usize = 0;
    while u < esc.len()
        invariant
            u <= esc.len(),
            forall|x: int| 0 <= x < esc@.len() ==> (#[trigger] esc@[x]) < campos@.len(),
            campos_escritura@ == esc@.subrange(0, u as int).map_values(|j: usize| campos@[j as int]),
        decreases esc.len() - u,
    {
        campos_escritura.push(campos[esc[u]].copia());
        u += 1;
        assert(campos_escritura@ =~= esc@.subrange(0, u as int).map_values(|j: usize| campos@[j as int]));
    }
    let mut campos_multidato: Vec<CampoDef> = Vec::new();
    let mut w: usize = 0;
    while w < mul.len()
        invariant
            w <= mul.len(),
            forall|x: int| 0 <= x < mul@.len() ==> (#[trigger] mul@[x]) < campos@.len(),
            campos_multidato@ == mul@.subrange(0, w as int).map_values(|j: usize| campos@[j as int]),
        decreases mul.len() - w,
    {
        campos_multidato.push(campos[mul[w]].copia());
        w += 1;
        assert(campos_multidato@ =~= mul@.subrange(0, w as int).map_values(|j: usize| campos@[j as int]));
    }
    let mut col_a_campo: Vec<Option<CampoDef>> = Vec::new();
    let mut q: usize = 0;
    while q < cols.len()
        invariant
            q <= cols.len(),
            sc == vista_cols(cols@),
            forall|x: int| 0 <= x < cols@.len() ==> (#[trigger] cols@[x] matches Some(j) ==> j < campos@.len()),
            col_a_campo@ == sc.subrange(0, q as int).map_values(|o: Option<int>| match o {
                Some(j) => Some(campos@[j]),
                None => None,
            }),
        decreases cols.len() - q,
    {
        let x = match cols[q] {
            Some(j) => Some(campos[j].copia()),
            None => None,
        };
        col_a_campo.push(x);
        q += 1;
        assert(col_a_campo@ =~= sc.subrange(0, q as int).map_values(|o: Option<int>| match o {
            Some(j) => Some(campos@[j]),
            None => None,
        }));
    }
    assert(sc.subrange(0, cols.len() as int) =~= sc);
    proof {
        assert(esc@.subrange(0, esc.len() as int) =~= esc@);
        assert(mul@.subrange(0, mul.len() as int) =~= mul@);
        let ce = campos_clase(sc, campos@, nl, false);
        assert(campos_escritura@ =~= ce.map_values(|j: int| campos@[j]));
        let cm = campos_clase(sc, campos@, nl, true);
        assert(campos_multidato@ =~= cm.map_values(|j: int| campos@[j]));
    }
    Ok(
        Casado {
            col_a_campo,
            indice_llave,
            llave_numerica,
            nombre_llave,
            campos_escritura,
            campos_multidato,
            avisos,
        },
    )
}

proof fn lema_llave_prefijo(c: Seq<CampoDef>, m: int, llave: Seq<char>)
    requires
        0 <= m <= c.len(),
        llave_spec(c.subrange(0, m), llave) is Some,
    ensures
        llave_spec(c, llave) == llave_spec(c.subrange(0, m), llave),
    decreases c.len() - m,
{
    if m < c.len() {
        assert(c.subrange(0, m + 1).drop_last() =~= c.subrange(0, m));
        lema_llave_prefijo(c, m + 1, llave);
    } else {
        assert(c.subrange(0, m) =~= c);
    }
}

proof fn lema_cols_err(enc: Seq<Seq<char>>, m: int, campos: Seq<CampoDef>, nl: Seq<char>)
    requires
        0 <= m <= enc.len(),
        columnas_spec(enc.subrange(0, m), campos, nl) is Err,
    ensures
        columnas_spec(enc, campos, nl) == columnas_spec(enc.subrange(0, m), campos, nl),
    decreases enc.len() - m,
{
    if m < enc.len() {
        assert(enc.subrange(0, m + 1).drop_last() =~= enc.subrange(0, m));
        lema_cols_err(enc, m + 1, campos, nl);
    } else {
        assert(enc.subrange(0, m) =~= enc);
    }
}

proof fn lema_unidas(p: Seq<Seq<char>>, sep: Seq<char>)
    ensures
        unidas(p, sep) == unir(p, sep),
    decreases p.len(),
{
    if p.len() > 1 {
        lema_unidas(p.drop_last(), sep);
    }
}


// ---------------------------------------------------------------------------
// Filas
// ---------------------------------------------------------------------------

/// Una fila del archivo casada con los campos del álbum y normalizada.
pub struct FilaCasada {
    /// Clave canónica de la llave.
    pub clave: String,
    /// Valores escalares a escribir, por nombre de campo (si dos campos
    /// comparten nombre, rige el posterior).
    pub escalares: Vec<(String, CeldaNorm)>,
    /// Valores de multidatos a escribir, por nombre de campo.
    pub multidatos: Vec<(String, Vec<String>)>,
}

/// Vista de una fila casada.
pub struct FilaSpec {
    pub clave: Seq<char>,
    pub escalares: Seq<(Seq<char>, CeldaSpec)>,
    pub multidatos: Seq<(Seq<char>, Seq<Seq<char>>)>,
}

pub open spec fn vista_fila_casada(f: FilaCasada) -> FilaSpec {
    FilaSpec {
        clave: f.clave@,
        escalares: f.escalares@.map_values(|p: (String, CeldaNorm)| (p.0@, vista_celda(p.1))),
        multidatos: f.multidatos@.map_values(
            |p: (String, Vec<String>)| (p.0@, p.1@.map_values(|x: String| x@)),
        ),
    }
}

/// Celdas de una fila, columna a columna: escalares, multidatos y errores
/// (con el número de fila `num`). La llave no se escribe como celda.
pub open spec fn celdas_fila(
    cols: Seq<Option<CampoDef>>,
    nl: Seq<char>,
    fila: Seq<Seq<char>>,
    sep: u8,
    num: Seq<char>,
) -> (Seq<(Seq<char>, CeldaSpec)>, Seq<(Seq<char>, Seq<Seq<char>>)>, Seq<Seq<char>>)
    decreases cols.len(),
{
    if cols.len() == 0 {
        (Seq::empty(), Seq::empty(), Seq::empty())
    } else {
        let previo = celdas_fila(cols.drop_last(), nl, fila, sep, num);
        let i = cols.len() - 1;
        match cols.last() {
            None => previo,
            Some(c) => if igual_sin_caja(c.nombre@, recortado(nl)) {
                previo
            } else {
                let celda = if i < fila.len() {
                    fila[i]
                } else {
                    Seq::empty()
                };
                match celda_spec(celda, c, sep) {
                    Ok(CeldaSpec::Omitir) => previo,
                    Ok(CeldaSpec::Multi(v)) => (previo.0, previo.1.push((c.nombre@, v)), previo.2),
                    Ok(x) => (previo.0.push((c.nombre@, x)), previo.1, previo.2),
                    Err(m) => (previo.0, previo.1, previo.2.push("fila "@ + num + ": "@ + m)),
                }
            },
        }
    }
}

/// Estado del recorrido de las filas.
pub struct EstadoFilas {
    pub vistas: Seq<Seq<char>>,
    pub filas: Seq<FilaSpec>,
    pub avisos: Seq<Seq<char>>,
    pub errores: Seq<Seq<char>>,
}

/// Recorrido de las filas con su clave canónica: sin clave, un error; con
/// una clave ya vista, un aviso (gana la primera fila); si no, la fila con
/// sus celdas normalizadas. Las filas se numeran desde 2 (tras el
/// encabezado, como en una hoja de cálculo).
pub open spec fn filas_spec(
    cols: Seq<Option<CampoDef>>,
    nl: Seq<char>,
    filas: Seq<Seq<Seq<char>>>,
    claves: Seq<Option<Seq<char>>>,
    sep: u8,
) -> EstadoFilas
    decreases filas.len(),
{
    if filas.len() == 0 {
        EstadoFilas {
            vistas: Seq::empty(),
            filas: Seq::empty(),
            avisos: Seq::empty(),
            errores: Seq::empty(),
        }
    } else {
        let st = filas_spec(cols, nl, filas.drop_last(), claves, sep);
        let r = filas.len() - 1;
        let num = decimal_spec((r + 2) as nat);
        match claves[r] {
            None => EstadoFilas {
                errores: st.errores.push("fila "@ + num + ": llave vacía, fila omitida"@),
                ..st
            },
            Some(k) => if st.vistas.contains(k) {
                EstadoFilas {
                    avisos: st.avisos.push(
                        "llave duplicada en el archivo: '"@ + k + "' (se usó la primera fila)"@,
                    ),
                    ..st
                }
            } else {
                let cf = celdas_fila(cols, nl, filas.last(), sep, num);
                EstadoFilas {
                    vistas: st.vistas.push(k),
                    filas: st.filas.push(FilaSpec { clave: k, escalares: cf.0, multidatos: cf.1 }),
                    avisos: st.avisos,
                    errores: st.errores + cf.2,
                }
            },
        }
    }
}

/// Vista de las filas del archivo.
pub open spec fn vista_filas(v: Seq<Vec<String>>) -> Seq<Seq<Seq<char>>> {
    v.map_values(|f: Vec<String>| vista_textos(f@))
}

/// Vista de las claves de las filas.
pub open spec fn vista_claves(v: Seq<Option<String>>) -> Seq<Option<Seq<char>>> {
    v.map_values(|o: Option<String>| match o {
        Some(s) => Some(s@),
        None => None,
    })
}

/// Copia de una celda normalizada.
fn copia_celda(c: &CeldaNorm) -> (r: CeldaNorm)
    ensures
        vista_celda(r) == vista_celda(*c),
{
    match c {
        CeldaNorm::Omitir => CeldaNorm::Omitir,
        CeldaNorm::Texto(s) => CeldaNorm::Texto(s.clone()),
        CeldaNorm::Numero(s) => CeldaNorm::Numero(s.clone()),
        CeldaNorm::Multi(v) => {
            let mut w: Vec<String> = Vec::new();
            let mut i: usize = 0;
            while i < v.len()
                invariant
                    i <= v.len(),
                    w@ == v@.subrange(0, i as int),
                decreases v.len() - i,
            {
                w.push(v[i].clone());
                i += 1;
                assert(w@ =~= v@.subrange(0, i as int));
            }
            assert(w@ =~= v@);
            CeldaNorm::Multi(w)
        },
    }
}

/// Celdas normalizadas de una fila.
fn celdas_de_fila(
    cols: &Vec<Option<CampoDef>>,
    nombre_llave: &String,
    fila: &Vec<String>,
    separador: u8,
    num: &String,
) -> (r: (Vec<(String, CeldaNorm)>, Vec<(String, Vec<String>)>, Vec<String>))
    ensures
        (
            r.0@.map_values(|p: (String, CeldaNorm)| (p.0@, vista_celda(p.1))),
            r.1@.map_values(|p: (String, Vec<String>)| (p.0@, p.1@.map_values(|x: String| x@))),
            vista_textos(r.2@),
        ) == celdas_fila(cols@, nombre_llave@, vista_textos(fila@), separador, num@),
{
    let ghost vf = vista_textos(fila@);
    let nl_rec = recortar(&caracteres(nombre_llave.as_str()));
    let mut esc: Vec<(String, CeldaNorm)> = Vec::new();
    let mut mul: Vec<(String, Vec<String>)> = Vec::new();
    let mut errores: Vec<String> = Vec::new();
    let mut i: usize = 0;
    assert(cols@.subrange(0, 0) =~= Seq::<Option<CampoDef>>::empty());
    assert(esc@.map_values(|p: (String, CeldaNorm)| (p.0@, vista_celda(p.1))) =~= Seq::<(Seq<char>, CeldaSpec)>::empty());
    assert(mul@.map_values(|p: (String, Vec<String>)| (p.0@, p.1@.map_values(|x: String| x@))) =~= Seq::<(Seq<char>, Seq<Seq<char>>)>::empty());
    assert(vista_textos(errores@) =~= Seq::<Seq<char>>::empty());
    while i < cols.len()
        invariant
            i <= cols.len(),
            vf == vista_textos(fila@),
            nl_rec@ == recortado(nombre_llave@),
            (
                esc@.map_values(|p: (String, CeldaNorm)| (p.0@, vista_celda(p.1))),
                mul@.map_values(|p: (String, Vec<String>)| (p.0@, p.1@.map_values(|x: String| x@))),
                vista_textos(errores@),
            ) == celdas_fila(cols@.subrange(0, i as int), nombre_llave@, vf, separador, num@),
        decreases cols.len() - i,
    {
        let ghost sub = cols@.subrange(0, i + 1);
        assert(sub.drop_last() =~= cols@.subrange(0, i as int));
        assert(sub.last() == cols@[i as int]);
        match &cols[i] {
            None => {},
            Some(campo) => {
                if !iguales_sin_caja(&caracteres(campo.nombre.as_str()), &nl_rec) {
                    let celda: &str = if i < fila.len() {
                        fila[i].as_str()
                    } else {
                        ""
                    };
                    proof {
                        reveal_strlit("");
                        if i < fila.len() {
                            assert(vf[i as int] == fila@[i as int]@);
                        }
                    }
                    let ghost e0 = esc@.map_values(|p: (String, CeldaNorm)| (p.0@, vista_celda(p.1)));
                    let ghost m0 = mul@.map_values(|p: (String, Vec<String>)| (p.0@, p.1@.map_values(|x: String| x@)));
                    match normalizar_valor(celda, campo, separador) {
                        Ok(CeldaNorm::Omitir) => {},
                        Ok(CeldaNorm::Multi(v)) => {
                            let ghost par = (campo.nombre@, v@.map_values(|x: String| x@));
                            mul.push((campo.nombre.clone(), v));
                            assert(mul@.map_values(|p: (String, Vec<String>)| (p.0@, p.1@.map_values(|x: String| x@))) =~= m0.push(par));
                        },
                        Ok(x) => {
                            let ghost par = (campo.nombre@, vista_celda(x));
                            esc.push((campo.nombre.clone(), x));
                            assert(esc@.map_values(|p: (String, CeldaNorm)| (p.0@, vista_celda(p.1))) =~= e0.push(par));
                        },
                        Err(m) => {
                            let mut t = concatenar3("fila ", num.as_str(), ": ");
                            t.append(m.as_str());
                            empujar_texto(&mut errores, t);
                        },
                    }
                }
            },
        }
        i += 1;
    }
    assert(cols@.subrange(0, cols.len() as int) =~= cols@);
    (esc, mul, errores)
}

/// Prepara las filas del archivo con la clave canónica de cada una: la
/// primera fila de cada clave gana; las filas sin clave son errores; cada
/// celda se normaliza según su campo.
pub fn casar_filas(
    casado: &Casado,
    filas: &[Vec<String>],
    claves: &[Option<String>],
    separador: u8,
) -> (r: (Vec<FilaCasada>, Vec<String>, Vec<String>))
    requires
        claves@.len() == filas@.len(),
        filas@.len() < 0xFFFF_FFFF_FFFF_0000,
    ensures
        ({
            let e = filas_spec(
                casado.col_a_campo@,
                casado.nombre_llave@,
                vista_filas(filas@),
                vista_claves(claves@),
                separador,
            );
            &&& r.0@.map_values(|f: FilaCasada| vista_fila_casada(f)) == e.filas
            &&& vista_textos(r.1@) == e.avisos
            &&& vista_textos(r.2@) == e.errores
        }),
{
    let ghost vfs = vista_filas(filas@);
    let ghost vcl = vista_claves(claves@);
    let mut vistas: Vec<String> = Vec::new();
    let mut casadas: Vec<FilaCasada> = Vec::new();
    let mut avisos: Vec<String> = Vec::new();
    let mut errores: Vec<String> = Vec::new();
    let mut k: usize = 0;
    assert(vfs.subrange(0, 0) =~= Seq::<Seq<Seq<char>>>::empty());
    assert(vista_textos(vistas@) =~= Seq::<Seq<char>>::empty());
    assert(casadas@.map_values(|f: FilaCasada| vista_fila_casada(f)) =~= Seq::<FilaSpec>::empty());
    assert(vista_textos(avisos@) =~= Seq::<Seq<char>>::empty());
    assert(vista_textos(errores@) =~= Seq::<Seq<char>>::empty());
    while k < filas.len()
        invariant
            k <= filas.len(),
            claves@.len() == filas@.len(),
            filas@.len() < 0xFFFF_FFFF_FFFF_0000,
            vfs == vista_filas(filas@),
            vcl == vista_claves(claves@),
            ({
                let e = filas_spec(casado.col_a_campo@, casado.nombre_llave@, vfs.subrange(0, k as int), vcl, separador);
                &&& vista_textos(vistas@) == e.vistas
                &&& casadas@.map_values(|f: FilaCasada| vista_fila_casada(f)) == e.filas
                &&& vista_textos(avisos@) == e.avisos
                &&& vista_textos(errores@) == e.errores
            }),
        decreases filas.len() - k,
    {
        let ghost sub = vfs.subrange(0, k + 1);
        assert(sub.drop_last() =~= vfs.subrange(0, k as int));
        assert(sub.last() == vista_textos(filas@[k as int]@));
        let num = cadena(&decimal((k as u64) + 2));
        assert(vcl[k as int] == match claves@[k as int] {
            Some(s) => Some(s@),
            None => None,
        });
        match &claves[k] {
            None => {
                let mut t = concatenar3("fila ", num.as_str(), ": llave vacía, fila omitida");
                empujar_texto(&mut errores, t);
            },
            Some(clave) => {
                if contiene_texto(&vistas, clave) {
                    empujar_texto(
                        &mut avisos,
                        concatenar3(
                            "llave duplicada en el archivo: '",
                            clave.as_str(),
                            "' (se usó la primera fila)",
                        ),
                    );
                } else {
                    let (esc, mul, errs) = celdas_de_fila(
                        &casado.col_a_campo,
                        &casado.nombre_llave,
                        &filas[k],
                        separador,
                        &num,
                    );
                    empujar_texto(&mut vistas, clave.clone());
                    let ghost c0 = casadas@.map_values(|f: FilaCasada| vista_fila_casada(f));
                    let fila = FilaCasada { clave: clave.clone(), escalares: esc, multidatos: mul };
                    let ghost vfila = vista_fila_casada(fila);
                    casadas.push(fila);
                    assert(casadas@.map_values(|f: FilaCasada| vista_fila_casada(f)) =~= c0.push(vfila));
                    let ghost er0 = vista_textos(errores@);
                    let mut j: usize = 0;
                    while j < errs.len()
                        invariant
                            j <= errs.len(),
                            vista_textos(errores@) == er0 + vista_textos(errs@).subrange(0, j as int),
                        decreases errs.len() - j,
                    {
                        empujar_texto(&mut errores, errs[j].clone());
                        j += 1;
                        assert(vista_textos(errores@) =~= er0 + vista_textos(errs@).subrange(0, j as int));
                    }
                    assert(vista_textos(errs@).subrange(0, errs.len() as int) =~= vista_textos(errs@));
                }
            },
        }
        k += 1;
    }
    assert(vfs.subrange(0, filas.len() as int) =~= vfs);
    (casadas, avisos, errores)
}

} // verus!
