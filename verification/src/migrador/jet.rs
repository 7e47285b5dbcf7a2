//! Conversión a texto de los valores leídos de un álbum Access/Jet: cada
//! valor toma la forma textual que espera el resto del migrador.
//!
//! La lectura del archivo (catálogo, definición y filas) queda fuera de la
//! biblioteca verificada; quien lee pasa cada valor como [`ValorJet`], con los
//! reales ya escritos como texto y las marcas de tiempo truncadas a días.

use vstd::prelude::*;
use crate::calc::functions::{fecha_representable, fecha_tras_dias, formato_iso, iso_de, Fecha, MAX_DIAS};
use crate::db::schema::{entero_texto, texto_entero};
use crate::migrador::csv_parser::TablaCsv;
use crate::texto::{cadena, caracteres};

verus! {

/// Una tabla leída del `.mdb`: sus datos como [`TablaCsv`] y cuántas filas
/// omitió el lector por no poder interpretarlas (no es un error: se avisa).
#[derive(Debug, Clone)]
pub struct TablaLeida {
    pub csv: TablaCsv,
    pub omitidas: usize,
}

/// Valor de una celda Jet, con lo que de él se lee.
#[derive(Debug, Clone)]
pub enum ValorJet {
    /// Nulo.
    Nulo,
    /// Binario (objeto OLE): no se conserva.
    Binario,
    Logico(bool),
    /// Byte, entero, entero largo o entero grande.
    Entero(i64),
    /// Real simple o doble, ya escrito como texto.
    Real(String),
    /// Moneda o numérico: texto decimal con punto.
    Decimal(String),
    /// Texto o GUID.
    Texto(String),
    /// Marca de tiempo: días enteros desde el `1899-12-30` (sin la hora).
    Marca(i64),
    /// Fecha y hora extendida: texto ISO 8601.
    FechaHora(String),
}

/// Mayor número de días (en valor absoluto) de una marca de tiempo que
/// `chrono::TimeDelta::days` admite (más allá, el número de segundos no cabe
/// en un `TimeDelta`).
pub const MAX_DIAS_MARCA: i64 = 106_751_991_167;

/// La fecha `dias` días después del `1899-12-30`
/// (`NaiveDate::checked_add_signed`), o ninguna fuera del rango de fechas de
/// `chrono`.
pub uninterp spec fn fecha_de_marca(dias: int) -> Option<Fecha>;

/// `NaiveDate::from_ymd_opt(1899, 12, 30)` más `TimeDelta::days(dias)` con
/// `checked_add_signed`. Se afirma que el resultado es función de `dias`; que
/// una fecha devuelta está en el rango de `chrono`; y que, dentro del rango
/// de [`MAX_DIAS`] días alrededor del `1900-01-01`, es la fecha de
/// [`fecha_tras_dias`] dos días antes (el `1899-12-30` es dos días anterior).
/// `TimeDelta::days` entra en pánico fuera de ±[`MAX_DIAS_MARCA`].
#[verifier::external_body]
fn fecha_marca(dias: i64) -> (r: Option<Fecha>)
    requires
        -MAX_DIAS_MARCA <= dias <= MAX_DIAS_MARCA,
    ensures
        r == fecha_de_marca(dias as int),
        r matches Some(f) ==> fecha_representable(f),
        -MAX_DIAS <= dias - 2 <= MAX_DIAS ==> r == Some(fecha_tras_dias(dias - 2)),
{
    let base = chrono::NaiveDate::from_ymd_opt(1899, 12, 30)?;
    base.checked_add_signed(chrono::TimeDelta::days(dias)).map(
        |d| Fecha { anio: chrono::Datelike::year(&d), mes: chrono::Datelike::month(&d), dia: chrono::Datelike::day(&d) },
    )
}

/// Fecha ISO de una marca de `dias` días desde el `1899-12-30`, o vacía si
/// queda fuera del rango de fechas de `chrono`.
pub open spec fn marca_iso(dias: int) -> Seq<char> {
    match fecha_de_marca(dias) {
        Some(f) => iso_de(f),
        None => Seq::empty(),
    }
}

/// Convierte una marca de tiempo Jet (días desde el `1899-12-30`) a fecha
/// ISO `YYYY-MM-DD`; vacía fuera del rango de fechas.
pub fn timestamp_a_iso(dias: i64) -> (r: String)
    requires
        -MAX_DIAS_MARCA <= dias <= MAX_DIAS_MARCA,
    ensures
        r@ == marca_iso(dias as int),
{
    match fecha_marca(dias) {
        Some(f) => formato_iso(f),
        None => String::new(),
    }
}

/// Texto de un valor, en la forma que entiende el migrador.
pub open spec fn texto_valor(v: ValorJet) -> Seq<char> {
    match v {
        ValorJet::Nulo => Seq::empty(),
        ValorJet::Binario => Seq::empty(),
        ValorJet::Logico(b) => if b {
            "1"@
        } else {
            "0"@
        },
        ValorJet::Entero(n) => entero_texto(n as int),
        ValorJet::Real(s) => s@,
        ValorJet::Decimal(s) => s@,
        ValorJet::Texto(s) => s@,
        ValorJet::Marca(d) => marca_iso(d as int),
        ValorJet::FechaHora(s) => if s@.len() <= 10 {
            s@
        } else {
            s@.take(10)
        },
    }
}

/// Convierte un valor Jet a texto: nulos y binarios vacíos, lógicos `1`/`0`,
/// enteros en decimal, reales, decimales y textos tal cual, marcas de tiempo
/// a fecha ISO y fechas extendidas a sus diez primeros caracteres (la fecha).
pub fn valor_a_string(v: &ValorJet) -> (r: String)
    requires
        *v matches ValorJet::Marca(d) ==> -MAX_DIAS_MARCA <= d <= MAX_DIAS_MARCA,
    ensures
        r@ == texto_valor(*v),
{
    proof {
        reveal_strlit("1");
        reveal_strlit("0");
    }
    match v {
        ValorJet::Nulo => String::new(),
        ValorJet::Binario => String::new(),
        ValorJet::Logico(b) => if *b {
            String::from_str("1")
        } else {
            String::from_str("0")
        },
        ValorJet::Entero(n) => cadena(texto_entero(*n).as_slice()),
        ValorJet::Real(s) => s.clone(),
        ValorJet::Decimal(s) => s.clone(),
        ValorJet::Texto(s) => s.clone(),
        ValorJet::Marca(d) => timestamp_a_iso(*d),
        ValorJet::FechaHora(s) => {
            let cs = caracteres(s.as_str());
            let mut r: Vec<char> = Vec::new();
            let mut i: usize = 0;
            while i < cs.len() && i < 10
                invariant
                    i <= cs@.len(),
                    i <= 10,
                    cs@ == s@,
                    r@ == s@.take(i as int),
                decreases cs.len() - i,
            {
                r.push(cs[i]);
                i += 1;
                assert(r@ =~= s@.take(i as int));
            }
            assert(s@.len() <= 10 ==> s@.take(i as int) =~= s@);
            cadena(r.as_slice())
        },
    }
}

/// El nombre empieza por `MSys` (las tablas internas de Access).
pub open spec fn nombre_de_sistema(nombre: Seq<char>) -> bool {
    nombre.len() >= 4 && nombre.subrange(0, 4) == seq!['M', 'S', 'y', 's']
}

/// Una entrada del catálogo es una tabla del usuario: es una tabla, no tiene
/// ninguna de las banderas `excluidas` (sistema y oculta) y, por si un `.mdb`
/// antiguo no las marcara, su nombre no empieza por `MSys`.
pub fn es_tabla_usuario(es_tabla: bool, banderas: u32, excluidas: u32, nombre: &str) -> (r: bool)
    ensures
        r == (es_tabla && banderas & excluidas == 0 && !nombre_de_sistema(nombre@)),
{
    let v = caracteres(nombre);
    let sistema = v.len() >= 4 && v[0] == 'M' && v[1] == 'S' && v[2] == 'y' && v[3] == 's';
    proof {
        if v@.len() >= 4 {
            if sistema {
                assert(v@.subrange(0, 4) =~= seq!['M', 'S', 'y', 's']);
            } else {
                if v@.subrange(0, 4) == seq!['M', 'S', 'y', 's'] {
                    assert(v@[0] == v@.subrange(0, 4)[0]);
                    assert(v@[1] == v@.subrange(0, 4)[1]);
                    assert(v@[2] == v@.subrange(0, 4)[2]);
                    assert(v@[3] == v@.subrange(0, 4)[3]);
                }
            }
        }
    }
    es_tabla && banderas & excluidas == 0 && !sistema
}

} // verus!
