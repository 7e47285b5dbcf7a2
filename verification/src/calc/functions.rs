//! Funciones de fórmula y semántica de fechas de `@FECHA(...)`.
//!
//! Toda la aritmética de fechas se reduce a un número de días desde el
//! `01/01/1900`: `@FECHA(campo)` exige que el campo contenga una fecha y la
//! sustituye por sus días; para mostrar un resultado como fecha se reconvierte
//! con [`dias_a_fecha`]. El calendario (validación, diferencia de días,
//! formatos) lo calcula `chrono`.

use vstd::prelude::*;
use crate::texto::{caracteres, igual_sin_caja, recortado, recortar, cadena};

verus! {

/// Fecha del calendario gregoriano proléptico.
#[derive(Debug, Clone, Copy, PartialEq, Eq, Structural)]
pub struct Fecha {
    pub anio: i32,
    pub mes: u32,
    pub dia: u32,
}

/// Año bisiesto del calendario gregoriano.
pub open spec fn bisiesto(a: int) -> bool {
    (a % 4 == 0 && a % 100 != 0) || a % 400 == 0
}

/// Días del mes `m` del año `a`.
pub open spec fn dias_del_mes(a: int, m: int) -> int {
    if m == 2 {
        if bisiesto(a) { 29 } else { 28 }
    } else if m == 4 || m == 6 || m == 9 || m == 11 {
        30
    } else {
        31
    }
}

/// La fecha existe en el calendario.
pub open spec fn fecha_valida(f: Fecha) -> bool {
    1 <= f.mes <= 12 && 1 <= f.dia <= dias_del_mes(f.anio as int, f.mes as int)
}

/// La fecha existe y su año está en el rango de `chrono::NaiveDate`
/// (`-262143` a `262142`).
pub open spec fn fecha_representable(f: Fecha) -> bool {
    fecha_valida(f) && -262143 <= f.anio <= 262142
}

/// El epoch de las fechas de fórmula: `1900-01-01`.
pub open spec fn epoch_spec() -> Fecha {
    Fecha { anio: 1900, mes: 1, dia: 1 }
}

/// La fecha que `chrono` lee de `texto` con el formato `formato`
/// (`NaiveDate::parse_from_str`), o `None` si no la acepta.
pub uninterp spec fn fecha_leida(texto: Seq<char>, formato: Seq<char>) -> Option<Fecha>;

/// Días transcurridos desde el `1900-01-01` hasta `f` (negativos antes).
pub uninterp spec fn dias_desde_epoch(f: Fecha) -> int;

/// La fecha que está `n` días después del `1900-01-01`.
pub uninterp spec fn fecha_tras_dias(n: int) -> Fecha;

/// El texto ISO `YYYY-MM-DD` de `f` (formato `%Y-%m-%d` de `chrono`).
pub uninterp spec fn iso_de(f: Fecha) -> Seq<char>;

/// Mayor número de días (en valor absoluto) que [`dias_a_fecha`] acepta: el
/// resultado queda dentro del rango de fechas de `chrono`.
pub const MAX_DIAS: i64 = 95_000_000;

/// Lee una fecha de `texto` con el formato `formato` de `chrono`.
#[verifier::external_body]
fn leer_con_formato(texto: &str, formato: &str) -> (r: Option<Fecha>)
    ensures
        r == fecha_leida(texto@, formato@),
        r matches Some(f) ==> fecha_representable(f),
{
    chrono::NaiveDate::parse_from_str(texto, formato).ok().map(
        |d| Fecha { anio: chrono::Datelike::year(&d), mes: chrono::Datelike::month(&d), dia: chrono::Datelike::day(&d) },
    )
}

/// Convierte una fecha a su número de días desde el epoch (`1900-01-01`).
/// La fecha ha de estar en el rango de `chrono` (`from_ymd_opt` no da fecha
/// fuera de él).
#[verifier::external_body]
pub fn fecha_a_dias(fecha: Fecha) -> (r: i64)
    requires
        fecha_representable(fecha),
    ensures
        r == dias_desde_epoch(fecha),
        fecha == epoch_spec() ==> r == 0,
{
    let d = chrono::NaiveDate::from_ymd_opt(fecha.anio, fecha.mes, fecha.dia).unwrap();
    let e = chrono::NaiveDate::from_ymd_opt(1900, 1, 1).unwrap();
    (d - e).num_days()
}

/// Convierte un número de días desde el epoch de vuelta a fecha.
#[verifier::external_body]
pub fn dias_a_fecha(dias: i64) -> (f: Fecha)
    requires
        -MAX_DIAS <= dias <= MAX_DIAS,
    ensures
        f == fecha_tras_dias(dias as int),
        fecha_representable(f),
        dias_desde_epoch(f) == dias,
{
    let e = chrono::NaiveDate::from_ymd_opt(1900, 1, 1).unwrap();
    let d = e + chrono::Duration::days(dias);
    Fecha { anio: chrono::Datelike::year(&d), mes: chrono::Datelike::month(&d), dia: chrono::Datelike::day(&d) }
}

/// Formatea una fecha como cadena ISO `YYYY-MM-DD`. La fecha ha de estar en
/// el rango de `chrono`.
#[verifier::external_body]
pub fn formato_iso(fecha: Fecha) -> (s: String)
    requires
        fecha_representable(fecha),
    ensures
        s@ == iso_de(fecha),
{
    chrono::NaiveDate::from_ymd_opt(fecha.anio, fecha.mes, fecha.dia).unwrap().format("%Y-%m-%d").to_string()
}

/// La fecha que se reconoce en un texto: ISO `%Y-%m-%d` y, en su defecto,
/// `%d/%m/%Y`, `%m/%d/%Y`, `%Y/%m/%d` y `%d-%m-%Y`, en ese orden, sobre el
/// texto sin blancos en los extremos.
pub open spec fn fecha_interpretada(texto: Seq<char>) -> Option<Fecha> {
    let s = recortado(texto);
    if s.len() == 0 {
        None
    } else if fecha_leida(s, "%Y-%m-%d"@) is Some {
        fecha_leida(s, "%Y-%m-%d"@)
    } else if fecha_leida(s, "%d/%m/%Y"@) is Some {
        fecha_leida(s, "%d/%m/%Y"@)
    } else if fecha_leida(s, "%m/%d/%Y"@) is Some {
        fecha_leida(s, "%m/%d/%Y"@)
    } else if fecha_leida(s, "%Y/%m/%d"@) is Some {
        fecha_leida(s, "%Y/%m/%d"@)
    } else {
        fecha_leida(s, "%d-%m-%Y"@)
    }
}

/// Intenta interpretar una cadena como fecha. Acepta el formato ISO
/// (`YYYY-MM-DD`, el canónico) y los formatos con `/` día-primero y
/// mes-primero, `YYYY/MM/DD` y `DD-MM-YYYY`. `None` si no es una fecha.
pub fn interpretar_fecha(texto: &str) -> (r: Option<Fecha>)
    ensures
        r == fecha_interpretada(texto@),
        r matches Some(f) ==> fecha_representable(f),
{
    let v = caracteres(texto);
    let t = recortar(&v);
    if t.len() == 0 {
        return None;
    }
    let s = cadena(&t);
    let iso = leer_con_formato(s.as_str(), "%Y-%m-%d");
    if iso.is_some() {
        return iso;
    }
    let a = leer_con_formato(s.as_str(), "%d/%m/%Y");
    if a.is_some() {
        return a;
    }
    let b = leer_con_formato(s.as_str(), "%m/%d/%Y");
    if b.is_some() {
        return b;
    }
    let c = leer_con_formato(s.as_str(), "%Y/%m/%d");
    if c.is_some() {
        return c;
    }
    leer_con_formato(s.as_str(), "%d-%m-%Y")
}

/// La fecha leída con `formato`, como texto ISO.
pub fn fecha_iso_con_formato(texto: &str, formato: &str) -> (r: Option<String>)
    ensures
        match fecha_leida(texto@, formato@) {
            Some(f) => r matches Some(s) && s@ == iso_de(f),
            None => r is None,
        },
{
    match leer_con_formato(texto, formato) {
        Some(f) => Some(formato_iso(f)),
        None => None,
    }
}

/// Identificador de una función de fórmula reconocida.
#[derive(Debug, Clone, Copy, PartialEq, Eq, Structural)]
pub enum Funcion {
    /// `@FECHA(arg)`: interpreta `arg` como fecha y la reduce a su número de
    /// días desde el epoch para permitir aritmética de fechas.
    Fecha,
}

impl Funcion {
    /// Cantidad de argumentos que espera la función.
    pub open spec fn aridad_spec(&self) -> nat {
        match self {
            Funcion::Fecha => 1,
        }
    }

    /// Cantidad de argumentos que espera la función.
    pub fn aridad(&self) -> (n: usize)
        ensures
            n == self.aridad_spec(),
    {
        match self {
            Funcion::Fecha => 1,
        }
    }
}

/// La función cuyo nombre (sin distinguir mayúsculas ASCII) es `nombre`.
pub open spec fn funcion_de(nombre: Seq<char>) -> Option<Funcion> {
    if igual_sin_caja(nombre, seq!['F', 'E', 'C', 'H', 'A']) {
        Some(Funcion::Fecha)
    } else {
        None
    }
}

/// Resuelve el nombre de una función (tras `@`) a su variante, sin distinguir
/// mayúsculas. Solo se conoce `FECHA`.
pub fn buscar_funcion(nombre: &str) -> (r: Option<Funcion>)
    ensures
        r == funcion_de(nombre@),
{
    let v = caracteres(nombre);
    let mut fecha: Vec<char> = Vec::new();
    fecha.push('F');
    fecha.push('E');
    fecha.push('C');
    fecha.push('H');
    fecha.push('A');
    assert(fecha@ =~= seq!['F', 'E', 'C', 'H', 'A']);
    if crate::texto::iguales_sin_caja(&v, &fecha) {
        Some(Funcion::Fecha)
    } else {
        None
    }
}

} // verus!
