//! Reglas de la migración de un álbum de origen: resumen de la inspección,
//! reporte del resultado, resolución de tablas y campos por nombre,
//! decodificación de nombres de nodo de plantilla, operadores de los filtros
//! guardados y normalización de fechas.
//!
//! La lectura del archivo de origen, la base de datos destino y la copia de
//! imágenes quedan fuera de la biblioteca verificada.

use vstd::prelude::*;
use vstd::string::*;
use crate::calc::functions::{fecha_iso_con_formato, fecha_leida, iso_de};
use crate::model::{operador_sql, CampoDef, OpComp, OpRel, TipoCampo};
use crate::texto::{cadena, caracteres, es_ascii, igual_sin_caja, iguales_sin_caja, mayusculas, minusculas, recortado, recortar, tramo};

verus! {

/// Inspección previa de un álbum de origen: qué contiene, sin migrar nada.
#[derive(Debug, Clone)]
pub struct MdbInspeccion {
    /// Nombres de las tablas presentes.
    pub tablas: Vec<String>,
    /// Campos de usuario detectados: `(nombre, tipo legible)`.
    pub campos: Vec<(String, String)>,
    /// Número estimado de registros de `Principal`.
    pub total_estimado: u64,
    /// `true` si hay tabla `Variantes` con filas.
    pub tiene_variantes: bool,
}

/// Reporte del resultado de una migración.
#[derive(Debug, Clone)]
pub struct MigracionReporte {
    pub filas_principal: u64,
    pub filas_variantes: u64,
    pub filas_multidatos: u64,
    pub imagenes_encontradas: u64,
    /// Rutas de imágenes referenciadas que no existen en disco.
    pub imagenes_faltantes: Vec<String>,
    /// Avisos no fatales (operadores de filtro no convertibles, tablas
    /// opcionales ausentes, discrepancias de calculados...).
    pub advertencias: Vec<String>,
}

impl Default for MigracionReporte {
    fn default() -> (r: MigracionReporte)
        ensures
            r.filas_principal == 0 && r.filas_variantes == 0 && r.filas_multidatos == 0
                && r.imagenes_encontradas == 0 && r.imagenes_faltantes@.len() == 0
                && r.advertencias@.len() == 0,
    {
        MigracionReporte {
            filas_principal: 0,
            filas_variantes: 0,
            filas_multidatos: 0,
            imagenes_encontradas: 0,
            imagenes_faltantes: Vec::new(),
            advertencias: Vec::new(),
        }
    }
}

/// Nombre legible de cada tipo de campo.
pub open spec fn tipo_legible_spec(t: TipoCampo) -> Seq<char> {
    match t {
        TipoCampo::Texto => "texto"@,
        TipoCampo::Numerico => "numérico"@,
        TipoCampo::Moneda => "moneda"@,
        TipoCampo::Fecha => "fecha"@,
        TipoCampo::Calculado => "calculado"@,
        TipoCampo::Multidato => "multidato"@,
    }
}

/// Nombre legible de un tipo de campo para la inspección.
pub fn tipo_legible(t: TipoCampo) -> (r: &'static str)
    ensures
        r@ == tipo_legible_spec(t),
{
    match t {
        TipoCampo::Texto => "texto",
        TipoCampo::Numerico => "numérico",
        TipoCampo::Moneda => "moneda",
        TipoCampo::Fecha => "fecha",
        TipoCampo::Calculado => "calculado",
        TipoCampo::Multidato => "multidato",
    }
}

/// Primera tabla de `tablas` que se llama `nombre` (sin distinguir
/// mayúsculas).
pub open spec fn tabla_buscada(tablas: Seq<String>, nombre: Seq<char>) -> Option<int>
    decreases tablas.len(),
{
    if tablas.len() == 0 {
        None
    } else {
        match tabla_buscada(tablas.drop_last(), nombre) {
            Some(i) => Some(i),
            None => if igual_sin_caja(tablas.last()@, nombre) {
                Some(tablas.len() - 1)
            } else {
                None
            },
        }
    }
}

proof fn lema_tabla_prefijo(t: Seq<String>, m: int, nombre: Seq<char>)
    requires
        0 <= m <= t.len(),
        tabla_buscada(t.subrange(0, m), nombre) is Some,
    ensures
        tabla_buscada(t, nombre) == tabla_buscada(t.subrange(0, m), nombre),
    decreases t.len() - m,
{
    if m < t.len() {
        assert(t.subrange(0, m + 1).drop_last() =~= t.subrange(0, m));
        lema_tabla_prefijo(t, m + 1, nombre);
    } else {
        assert(t.subrange(0, m) =~= t);
    }
}

/// Posición de la tabla `nombre` en la lista (sin distinguir mayúsculas).
fn posicion_tabla(tablas: &[String], nombre: &str) -> (r: Option<usize>)
    ensures
        match r {
            Some(i) => i < tablas.len() && tabla_buscada(tablas@, nombre@) == Some(i as int),
            None => tabla_buscada(tablas@, nombre@) is None,
        },
{
    let n = caracteres(nombre);
    let mut i: usize = 0;
    while i < tablas.len()
        invariant
            i <= tablas.len(),
            n@ == nombre@,
            tabla_buscada(tablas@.subrange(0, i as int), nombre@) is None,
        decreases tablas.len() - i,
    {
        assert(tablas@.subrange(0, i + 1).drop_last() =~= tablas@.subrange(0, i as int));
        assert(tablas@.subrange(0, i + 1).last() == tablas@[i as int]);
        if iguales_sin_caja(&caracteres(tablas[i].as_str()), &n) {
            proof {
                lema_tabla_prefijo(tablas@, i + 1, nombre@);
            }
            return Some(i);
        }
        i += 1;
    }
    assert(tablas@.subrange(0, i as int) =~= tablas@);
    None
}

/// `true` si hay una tabla llamada `nombre` (sin distinguir mayúsculas).
pub fn existe_tabla(tablas: &[String], nombre: &str) -> (r: bool)
    ensures
        r == tabla_buscada(tablas@, nombre@) is Some,
{
    posicion_tabla(tablas, nombre).is_some()
}

/// El nombre real de la tabla `nombre` (sin distinguir mayúsculas), tal cual
/// aparece en la lista.
pub fn nombre_tabla<'a>(tablas: &'a [String], nombre: &str) -> (r: Option<&'a str>)
    ensures
        match tabla_buscada(tablas@, nombre@) {
            Some(i) => r matches Some(s) && s@ == tablas@[i]@,
            None => r is None,
        },
{
    match posicion_tabla(tablas, nombre) {
        Some(i) => Some(tablas[i].as_str()),
        None => None,
    }
}

/// Contexto de la migración: los campos creados en el álbum nuevo y el
/// identificador asignado a cada nombre (el último registrado rige).
pub struct Contexto {
    pub campos: Vec<CampoDef>,
    pub por_nombre: Vec<(String, i64)>,
}

/// Identificador registrado para `nombre`: el de la última entrada con ese
/// nombre.
pub open spec fn id_de_nombre(por_nombre: Seq<(String, i64)>, nombre: Seq<char>) -> Option<i64>
    decreases por_nombre.len(),
{
    if por_nombre.len() == 0 {
        None
    } else if por_nombre.last().0@ == nombre {
        Some(por_nombre.last().1)
    } else {
        id_de_nombre(por_nombre.drop_last(), nombre)
    }
}

/// Primer campo con identificador `id`.
pub open spec fn campo_de_id(campos: Seq<CampoDef>, id: i64) -> Option<int>
    decreases campos.len(),
{
    if campos.len() == 0 {
        None
    } else {
        match campo_de_id(campos.drop_last(), id) {
            Some(i) => Some(i),
            None => if campos.last().id == id {
                Some(campos.len() - 1)
            } else {
                None
            },
        }
    }
}

impl Contexto {
    /// El campo que corresponde a `nombre`: el del identificador registrado
    /// para ese nombre.
    pub fn campo_por_nombre(&self, nombre: &str) -> (r: Option<&CampoDef>)
        ensures
            match id_de_nombre(self.por_nombre@, nombre@) {
                Some(id) => match campo_de_id(self.campos@, id) {
                    Some(i) => r matches Some(c) && *c == self.campos@[i],
                    None => r is None,
                },
                None => r is None,
            },
    {
        let n = String::from_str(nombre);
        let mut j: usize = self.por_nombre.len();
        let mut id: Option<i64> = None;
        assert(self.por_nombre@.subrange(0, j as int) =~= self.por_nombre@);
        while j > 0 && id.is_none()
            invariant
                j <= self.por_nombre.len(),
                n@ == nombre@,
                id is None ==> id_de_nombre(self.por_nombre@, nombre@) == id_de_nombre(
                    self.por_nombre@.subrange(0, j as int),
                    nombre@,
                ),
                id matches Some(x) ==> id_de_nombre(self.por_nombre@, nombre@) == Some(x),
            decreases j,
        {
            let ghost sub = self.por_nombre@.subrange(0, j as int);
            assert(sub.drop_last() =~= self.por_nombre@.subrange(0, j - 1));
            assert(sub.last() == self.por_nombre@[j - 1]);
            if self.por_nombre[j - 1].0 == n {
                id = Some(self.por_nombre[j - 1].1);
            }
            j -= 1;
        }
        let id = match id {
            Some(x) => x,
            None => {
                assert(self.por_nombre@.subrange(0, 0) =~= Seq::<(String, i64)>::empty());
                return None;
            },
        };
        let mut i: usize = 0;
        while i < self.campos.len()
            invariant
                i <= self.campos.len(),
                id_de_nombre(self.por_nombre@, nombre@) == Some(id),
                campo_de_id(self.campos@.subrange(0, i as int), id) is None,
            decreases self.campos.len() - i,
        {
            let ghost sub = self.campos@.subrange(0, i + 1);
            assert(sub.drop_last() =~= self.campos@.subrange(0, i as int));
            assert(sub.last() == self.campos@[i as int]);
            if self.campos[i].id == id {
                proof {
                    lema_campo_prefijo(self.campos@, i + 1, id);
                }
                return Some(&self.campos[i]);
            }
            i += 1;
        }
        assert(self.campos@.subrange(0, i as int) =~= self.campos@);
        None
    }
}

proof fn lema_campo_prefijo(c: Seq<CampoDef>, m: int, id: i64)
    requires
        0 <= m <= c.len(),
        campo_de_id(c.subrange(0, m), id) is Some,
    ensures
        campo_de_id(c, id) == campo_de_id(c.subrange(0, m), id),
    decreases c.len() - m,
{
    if m < c.len() {
        assert(c.subrange(0, m + 1).drop_last() =~= c.subrange(0, m));
        lema_campo_prefijo(c, m + 1, id);
    } else {
        assert(c.subrange(0, m) =~= c);
    }
}

/// `s` con cada aparición de `pat` (de izquierda a derecha, sin solaparse)
/// sustituida por `rep`, como `str::replace`.
pub open spec fn reemplazar(s: Seq<char>, pat: Seq<char>, rep: Seq<char>) -> Seq<char>
    decreases s.len(),
{
    if s.len() == 0 {
        Seq::empty()
    } else if pat.len() > 0 && s.len() >= pat.len() && s.subrange(0, pat.len() as int) == pat {
        rep + reemplazar(s.subrange(pat.len() as int, s.len() as int), pat, rep)
    } else {
        seq![s[0]] + reemplazar(s.drop_first(), pat, rep)
    }
}

/// Sustituye en `s` las apariciones de `pat` por `rep`.
fn reemplazar_exec(s: &Vec<char>, pat: &Vec<char>, rep: &Vec<char>) -> (r: Vec<char>)
    requires
        pat.len() > 0,
    ensures
        r@ == reemplazar(s@, pat@, rep@),
{
    let mut out: Vec<char> = Vec::new();
    let mut i: usize = 0;
    assert(s@.subrange(0, s.len() as int) =~= s@);
    while i < s.len()
        invariant
            i <= s.len(),
            pat.len() > 0,
            out@ + reemplazar(s@.subrange(i as int, s.len() as int), pat@, rep@) == reemplazar(
                s@,
                pat@,
                rep@,
            ),
        decreases s.len() - i,
    {
        let ghost resto = s@.subrange(i as int, s.len() as int);
        let mut coincide = pat.len() <= s.len() - i;
        let mut k: usize = 0;
        while coincide && k < pat.len()
            invariant
                k <= pat.len(),
                coincide ==> i + pat.len() <= s.len(),
                coincide ==> forall|m: int| 0 <= m < k ==> s@[i + m] == pat@[m],
                !coincide ==> !(i + pat.len() <= s.len() && s@.subrange(
                    i as int,
                    i + pat.len(),
                ) == pat@),
            decreases pat.len() - k,
        {
            if s[i + k] != pat[k] {
                proof {
                    if i + pat.len() <= s.len() && s@.subrange(i as int, i + pat.len()) == pat@ {
                        assert(s@.subrange(i as int, i + pat.len())[k as int] == s@[i + k]);
                    }
                }
                coincide = false;
            }
            k += 1;
        }
        if coincide {
            assert(s@.subrange(i as int, i + pat.len()) =~= pat@);
            assert(resto.subrange(0, pat.len() as int) =~= pat@);
            assert(resto.subrange(pat.len() as int, resto.len() as int) =~= s@.subrange(
                i + pat.len(),
                s.len() as int,
            ));
            let ghost o0 = out@;
            let mut m: usize = 0;
            while m < rep.len()
                invariant
                    m <= rep.len(),
                    out@ == o0 + rep@.subrange(0, m as int),
                decreases rep.len() - m,
            {
                out.push(rep[m]);
                m += 1;
                assert(out@ =~= o0 + rep@.subrange(0, m as int));
            }
            assert(rep@.subrange(0, rep.len() as int) =~= rep@);
            assert(o0 + reemplazar(resto, pat@, rep@) =~= out@ + reemplazar(
                s@.subrange(i + pat.len(), s.len() as int),
                pat@,
                rep@,
            ));
            i = i + pat.len();
        } else {
            proof {
                if resto.len() >= pat.len() && resto.subrange(0, pat.len() as int) == pat@ {
                    assert(s@.subrange(i as int, i + pat.len()) =~= resto.subrange(
                        0,
                        pat.len() as int,
                    ));
                }
            }
            assert(resto.drop_first() =~= s@.subrange(i + 1, s.len() as int));
            let ghost o0 = out@;
            out.push(s[i]);
            assert(o0 + reemplazar(resto, pat@, rep@) =~= out@ + reemplazar(
                s@.subrange(i + 1, s.len() as int),
                pat@,
                rep@,
            ));
            i = i + 1;
        }
    }
    assert(out@ + reemplazar(s@.subrange(i as int, s.len() as int), pat@, rep@) =~= out@);
    out
}

/// Decodificación de un nombre de nodo de plantilla: los nombres de sistema
/// (que empiezan por `_`) quedan igual; en los demás, `__` representa un `_`
/// literal y `_` un espacio (tres sustituciones sucesivas: `__` → dos
/// espacios, `_` → espacio, dos espacios → `_`).
pub open spec fn und_esp_spec(nombre: Seq<char>) -> Seq<char> {
    if nombre.len() > 0 && nombre[0] == '_' {
        nombre
    } else {
        reemplazar(
            reemplazar(reemplazar(nombre, seq!['_', '_'], seq![' ', ' ']), seq!['_'], seq![' ']),
            seq![' ', ' '],
            seq!['_'],
        )
    }
}

/// Decodifica un nombre de nodo de plantilla: `_` → espacio, `__` → `_`; los
/// nombres de sistema (con `_` inicial) se devuelven tal cual.
pub fn cambia_und_esp(nombre: &str) -> (r: String)
    ensures
        r@ == und_esp_spec(nombre@),
{
    let v = caracteres(nombre);
    if v.len() > 0 && v[0] == '_' {
        return String::from_str(nombre);
    }
    let mut dos_und: Vec<char> = Vec::new();
    dos_und.push('_');
    dos_und.push('_');
    let mut dos_esp: Vec<char> = Vec::new();
    dos_esp.push(' ');
    dos_esp.push(' ');
    let mut und: Vec<char> = Vec::new();
    und.push('_');
    let mut esp: Vec<char> = Vec::new();
    esp.push(' ');
    assert(dos_und@ =~= seq!['_', '_']);
    assert(dos_esp@ =~= seq![' ', ' ']);
    assert(und@ =~= seq!['_']);
    assert(esp@ =~= seq![' ']);
    let paso1 = reemplazar_exec(&v, &dos_und, &dos_esp);
    let paso2 = reemplazar_exec(&paso1, &und, &esp);
    let paso3 = reemplazar_exec(&paso2, &dos_esp, &und);
    cadena(&paso3)
}

/// Texto en minúsculas Unicode (`str::to_lowercase`).
pub uninterp spec fn minusculas_unicode(s: Seq<char>) -> Seq<char>;

/// Texto en mayúsculas Unicode (`str::to_uppercase`).
pub uninterp spec fn mayusculas_unicode(s: Seq<char>) -> Seq<char>;

/// `str::to_lowercase`: se afirma que el resultado es función del texto y,
/// como documenta `std` (las letras ASCII pasan a su minúscula ASCII y los
/// demás caracteres ASCII no cambian), que en un texto ASCII es su minúscula
/// ASCII.
#[verifier::external_body]
pub(crate) fn a_minusculas(s: &str) -> (r: String)
    ensures
        r@ == minusculas_unicode(s@),
        es_ascii(s@) ==> r@ == minusculas(s@),
{
    s.to_lowercase()
}

/// `str::to_uppercase`: se afirma que el resultado es función del texto y,
/// como documenta `std`, que en un texto ASCII es su mayúscula ASCII.
#[verifier::external_body]
pub(crate) fn a_mayusculas(s: &str) -> (r: String)
    ensures
        r@ == mayusculas_unicode(s@),
        es_ascii(s@) ==> r@ == mayusculas(s@),
{
    s.to_uppercase()
}

/// Operador de comparación que denota un texto ya en minúsculas: los
/// operadores SQL del álbum de origen y sus nombres. `is null`, `not is
/// null` y `not like` no tienen equivalente.
pub open spec fn op_comp_spec(o: Seq<char>) -> Option<OpComp> {
    if o == "="@ || o == "es igual"@ || o == "igual"@ {
        Some(OpComp::Igual)
    } else if o == "<>"@ || o == "!="@ || o == "no es igual"@ || o == "distinto"@ {
        Some(OpComp::Distinto)
    } else if o == ">"@ || o == "mayor que"@ || o == "mayor"@ {
        Some(OpComp::Mayor)
    } else if o == ">="@ || o == "mayor o igual que"@ || o == "mayor_igual"@ {
        Some(OpComp::MayorIgual)
    } else if o == "<"@ || o == "menor que"@ || o == "menor"@ {
        Some(OpComp::Menor)
    } else if o == "<="@ || o == "menor o igual que"@ || o == "menor_igual"@ {
        Some(OpComp::MenorIgual)
    } else if o == "like"@ || o == "contiene"@ {
        Some(OpComp::Contiene)
    } else {
        None
    }
}

/// Operador de comparación de un texto ya en minúsculas.
pub fn op_comp_de_minusculas(o: &str) -> (r: Option<OpComp>)
    ensures
        r == op_comp_spec(o@),
{
    let s = String::from_str(o);
    let es = |lit: &str| -> (b: bool)
        ensures
            b == (o@ == lit@),
        { s == String::from_str(lit) };
    if es("=") || es("es igual") || es("igual") {
        Some(OpComp::Igual)
    } else if es("<>") || es("!=") || es("no es igual") || es("distinto") {
        Some(OpComp::Distinto)
    } else if es(">") || es("mayor que") || es("mayor") {
        Some(OpComp::Mayor)
    } else if es(">=") || es("mayor o igual que") || es("mayor_igual") {
        Some(OpComp::MayorIgual)
    } else if es("<") || es("menor que") || es("menor") {
        Some(OpComp::Menor)
    } else if es("<=") || es("menor o igual que") || es("menor_igual") {
        Some(OpComp::MenorIgual)
    } else if es("like") || es("contiene") {
        Some(OpComp::Contiene)
    } else {
        None
    }
}

/// Convierte el operador SQL guardado en un filtro del álbum de origen
/// (`=`, `<>`, `>`, `>=`, `<`, `<=`, `like`, ...) a [`OpComp`]; `None` si no
/// tiene equivalente (`Is null`, `Not Is Null`, `Not like`).
pub fn mapear_op_comp(op: &str) -> (r: Option<OpComp>)
    ensures
        r == op_comp_spec(minusculas_unicode(recortado(op@))),
        es_ascii(recortado(op@)) ==> r == op_comp_spec(minusculas(recortado(op@))),
{
    let t = cadena(&recortar(&caracteres(op)));
    let o = a_minusculas(t.as_str());
    op_comp_de_minusculas(o.as_str())
}

/// Conector lógico que denota un texto ya en mayúsculas.
pub open spec fn op_rel_spec(o: Seq<char>) -> Option<OpRel> {
    if o == "Y"@ || o == "AND"@ {
        Some(OpRel::Y)
    } else if o == "O"@ || o == "OR"@ {
        Some(OpRel::O)
    } else {
        None
    }
}

/// Conector lógico de un texto ya en mayúsculas.
pub fn op_rel_de_mayusculas(o: &str) -> (r: Option<OpRel>)
    ensures
        r == op_rel_spec(o@),
{
    let s = String::from_str(o);
    let es = |lit: &str| -> (b: bool)
        ensures
            b == (o@ == lit@),
        { s == String::from_str(lit) };
    if es("Y") || es("AND") {
        Some(OpRel::Y)
    } else if es("O") || es("OR") {
        Some(OpRel::O)
    } else {
        None
    }
}

/// Convierte el conector guardado (`Y`/`O` o `AND`/`OR`, sin distinguir
/// mayúsculas).
pub fn mapear_op_rel(op: &str) -> (r: Option<OpRel>)
    ensures
        r == op_rel_spec(mayusculas_unicode(recortado(op@))),
        es_ascii(recortado(op@)) ==> r == op_rel_spec(mayusculas(recortado(op@))),
{
    let t = cadena(&recortar(&caracteres(op)));
    let o = a_mayusculas(t.as_str());
    op_rel_de_mayusculas(o.as_str())
}

/// Parte de fecha de un texto: hasta el primer espacio o `T`.
pub open spec fn solo_fecha(t: Seq<char>) -> Seq<char>
    decreases t.len(),
{
    if t.len() == 0 {
        Seq::empty()
    } else if t[0] == ' ' || t[0] == 'T' {
        Seq::empty()
    } else {
        seq![t[0]] + solo_fecha(t.drop_first())
    }
}

/// La fecha ISO que corresponde a un texto: la parte de fecha (sin blancos
/// en los extremos, hasta el primer espacio o `T`) leída como `%Y-%m-%d`,
/// `%d/%m/%Y`, `%m/%d/%Y` o `%d-%m-%Y`, el primer formato que la acepte.
pub open spec fn fecha_iso_spec(s: Seq<char>) -> Option<Seq<char>> {
    let f = solo_fecha(recortado(s));
    if fecha_leida(f, "%Y-%m-%d"@) is Some {
        Some(iso_de(fecha_leida(f, "%Y-%m-%d"@)->Some_0))
    } else if fecha_leida(f, "%d/%m/%Y"@) is Some {
        Some(iso_de(fecha_leida(f, "%d/%m/%Y"@)->Some_0))
    } else if fecha_leida(f, "%m/%d/%Y"@) is Some {
        Some(iso_de(fecha_leida(f, "%m/%d/%Y"@)->Some_0))
    } else if fecha_leida(f, "%d-%m-%Y"@) is Some {
        Some(iso_de(fecha_leida(f, "%d-%m-%Y"@)->Some_0))
    } else {
        None
    }
}

/// Normaliza una fecha a ISO `YYYY-MM-DD`, descartando una posible parte de
/// hora; acepta también `DD/MM/YYYY`, `MM/DD/YYYY` y `DD-MM-YYYY`.
pub fn normalizar_fecha_iso(s: &str) -> (r: Option<String>)
    ensures
        match fecha_iso_spec(s@) {
            Some(x) => r matches Some(y) && y@ == x,
            None => r is None,
        },
{
    let t = recortar(&caracteres(s));
    let mut k: usize = 0;
    assert(t@.subrange(0, t.len() as int) =~= t@);
    assert(t@.subrange(0, 0) + t@ =~= t@);
    while k < t.len() && t[k] != ' ' && t[k] != 'T'
        invariant
            k <= t.len(),
            solo_fecha(t@) == t@.subrange(0, k as int) + solo_fecha(t@.subrange(k as int, t.len() as int)),
        decreases t.len() - k,
    {
        let ghost resto = t@.subrange(k as int, t.len() as int);
        assert(resto.drop_first() =~= t@.subrange(k + 1, t.len() as int));
        assert(t@.subrange(0, k + 1) =~= t@.subrange(0, k as int) + seq![t@[k as int]]);
        k += 1;
    }
    proof {
        let resto = t@.subrange(k as int, t.len() as int);
        assert(solo_fecha(resto) =~= Seq::<char>::empty());
        assert(t@.subrange(0, 0) =~= Seq::<char>::empty());
    }
    let f = cadena(&tramo(&t, 0, k));
    assert(f@ =~= solo_fecha(t@));
    let a = fecha_iso_con_formato(f.as_str(), "%Y-%m-%d");
    if a.is_some() {
        return a;
    }
    let b = fecha_iso_con_formato(f.as_str(), "%d/%m/%Y");
    if b.is_some() {
        return b;
    }
    let c = fecha_iso_con_formato(f.as_str(), "%m/%d/%Y");
    if c.is_some() {
        return c;
    }
    fecha_iso_con_formato(f.as_str(), "%d-%m-%Y")
}

/// Un operador de SQL de una condición guardada se migra a la comparación
/// que significa: `<=` a «menor o igual», `<` a «menor», y así cada uno.
pub proof fn ley_operador_sql_se_migra(op: OpComp)
    requires
        operador_sql(op) is Some,
    ensures
        op_comp_spec(operador_sql(op)->Some_0) == Some(op),
{
    reveal_strlit("=");
    reveal_strlit("es igual");
    reveal_strlit("igual");
    reveal_strlit("<>");
    reveal_strlit("!=");
    reveal_strlit("no es igual");
    reveal_strlit("distinto");
    reveal_strlit(">");
    reveal_strlit("mayor que");
    reveal_strlit("mayor");
    reveal_strlit(">=");
    reveal_strlit("mayor o igual que");
    reveal_strlit("mayor_igual");
    reveal_strlit("<");
    reveal_strlit("menor que");
    reveal_strlit("menor");
    reveal_strlit("<=");
    reveal_strlit("menor o igual que");
    reveal_strlit("menor_igual");
    reveal_strlit("like");
    reveal_strlit("contiene");
    let s = operador_sql(op)->Some_0;
    assert("="@[0] == '=' && ">"@[0] == '>' && "<"@[0] == '<');
    assert("<>"@[0] == '<' && "<>"@[1] == '>' && "!="@[0] == '!');
    assert(">="@[0] == '>' && ">="@[1] == '=' && "<="@[0] == '<' && "<="@[1] == '=');
    match op {
        OpComp::Igual => assert(s =~= "="@),
        OpComp::Distinto => {
            assert(s =~= "<>"@);
            assert(s != "!="@);
        },
        OpComp::Mayor => {
            assert(s =~= ">"@);
            assert(s != "="@);
        },
        OpComp::Menor => {
            assert(s =~= "<"@);
            assert(s != "="@ && s != ">"@);
        },
        OpComp::MayorIgual => {
            assert(s =~= ">="@);
            assert(s != "<>"@ && s != "!="@);
        },
        OpComp::MenorIgual => {
            assert(s =~= "<="@);
            assert(s != "<>"@ && s != "!="@ && s != ">="@);
        },
        _ => {},
    }
}

/// El nombre con que el álbum guarda una comparación (`mayor_igual`,
/// `menor`, …) se migra a esa misma comparación; «empieza» no tiene
/// equivalente en los álbumes de origen.
pub proof fn ley_nombre_de_operador_se_migra(op: OpComp)
    requires
        op != OpComp::Empieza,
    ensures
        op_comp_spec(crate::db::codigos::txt_de_op_comp(op)) == Some(op),
{
    reveal_strlit("=");
    reveal_strlit("es igual");
    reveal_strlit("igual");
    reveal_strlit("<>");
    reveal_strlit("!=");
    reveal_strlit("no es igual");
    reveal_strlit("distinto");
    reveal_strlit(">");
    reveal_strlit("mayor que");
    reveal_strlit("mayor");
    reveal_strlit(">=");
    reveal_strlit("mayor o igual que");
    reveal_strlit("mayor_igual");
    reveal_strlit("<");
    reveal_strlit("menor que");
    reveal_strlit("menor");
    reveal_strlit("<=");
    reveal_strlit("menor o igual que");
    reveal_strlit("menor_igual");
    reveal_strlit("like");
    reveal_strlit("contiene");
    reveal_strlit("empieza");
    let t = crate::db::codigos::txt_de_op_comp(op);
    assert("mayor"@[1] == 'a' && "menor"@[1] == 'e');
    assert("igual"@[0] == 'i' && "mayor"@[0] == 'm');
    assert("mayor_igual"@[1] == 'a' && "menor_igual"@[1] == 'e' && "no es igual"@[0] == 'n');
    assert("distinto"@[0] == 'd' && "es igual"@[0] == 'e' && "contiene"@[0] == 'c');
    match op {
        OpComp::Igual => assert(t =~= "igual"@),
        OpComp::Distinto => {
            assert(t =~= "distinto"@);
            assert(t != "es igual"@);
        },
        OpComp::Mayor => {
            assert(t =~= "mayor"@);
            assert(t != "igual"@);
        },
        OpComp::Menor => {
            assert(t =~= "menor"@);
            assert(t != "igual"@ && t != "mayor"@);
        },
        OpComp::MayorIgual => {
            assert(t =~= "mayor_igual"@);
            assert(t != "no es igual"@);
        },
        OpComp::MenorIgual => {
            assert(t =~= "menor_igual"@);
            assert(t != "no es igual"@ && t != "mayor_igual"@);
        },
        OpComp::Contiene => {
            assert(t =~= "contiene"@);
            assert(t != "es igual"@ && t != "distinto"@);
        },
        _ => {},
    }
}

} // verus!
