//! Lectura de las tablas exportadas en CSV desde el álbum de origen.
//!
//! La exportación viene en la codificación del álbum (Windows-1252), con
//! delimitador coma y comilla doble, y las comillas internas duplicadas. El
//! flujo es: decodificar los bytes Windows-1252 a texto y después leer el CSV
//! ya decodificado, de modo que los acentos llegan como caracteres correctos y
//! nunca se parten en mitad de un campo. La primera fila es la cabecera; las
//! filas de datos se ajustan al ancho de la cabecera.

use vstd::prelude::*;
use vstd::string::*;
use crate::error::{MicError, MicErrorSpec};
use crate::texto::{caracteres, concatenar, igual_sin_caja, iguales_sin_caja, recortado, recortar, cadena};

verus! {

/// Una tabla CSV leída: cabecera y filas, como texto.
#[derive(Debug, Clone)]
pub struct TablaCsv {
    /// Nombres de columna (primera fila).
    pub cabecera: Vec<String>,
    /// Filas de datos; cada una con tantas celdas como la cabecera.
    pub filas: Vec<Vec<String>>,
}

/// Una fila como secuencia de textos.
pub open spec fn vista_fila(f: Seq<String>) -> Seq<Seq<char>> {
    f.map_values(|c: String| c@)
}

/// Vista de una tabla: cabecera y filas.
pub open spec fn vista_tabla(t: TablaCsv) -> (Seq<Seq<char>>, Seq<Seq<Seq<char>>>) {
    (vista_fila(t.cabecera@), t.filas@.map_values(|f: Vec<String>| vista_fila(f@)))
}

/// Primera posición de `nombre` en `cab`, sin distinguir mayúsculas ASCII.
pub open spec fn posicion_columna(cab: Seq<Seq<char>>, nombre: Seq<char>) -> Option<int>
    decreases cab.len(),
{
    if cab.len() == 0 {
        None
    } else {
        match posicion_columna(cab.drop_last(), nombre) {
            Some(i) => Some(i),
            None => if igual_sin_caja(cab.last(), nombre) {
                Some(cab.len() - 1)
            } else {
                None
            },
        }
    }
}

impl TablaCsv {
    /// Índice de la columna `nombre` (sin distinguir mayúsculas), si existe.
    pub fn indice(&self, nombre: &str) -> (r: Option<usize>)
        ensures
            match r {
                Some(j) => posicion_columna(vista_fila(self.cabecera@), nombre@) == Some(j as int),
                None => posicion_columna(vista_fila(self.cabecera@), nombre@) is None,
            },
    {
        let ghost cab = vista_fila(self.cabecera@);
        let n = caracteres(nombre);
        let mut i: usize = 0;
        while i < self.cabecera.len()
            invariant
                i <= self.cabecera.len(),
                cab == vista_fila(self.cabecera@),
                n@ == nombre@,
                posicion_columna(cab.subrange(0, i as int), nombre@) is None,
            decreases self.cabecera.len() - i,
        {
            let ghost sub = cab.subrange(0, i + 1);
            assert(sub.drop_last() =~= cab.subrange(0, i as int));
            assert(cab[i as int] == self.cabecera@[i as int]@);
            assert(sub.last() == cab[i as int]);
            if iguales_sin_caja(&caracteres(self.cabecera[i].as_str()), &n) {
                proof {
                    assert(posicion_columna(sub, nombre@) == Some(i as int));
                    lema_posicion_prefijo(cab, i + 1);
                }
                return Some(i);
            }
            i += 1;
        }
        assert(cab.subrange(0, i as int) =~= cab);
        None
    }

    /// Número de filas de datos.
    pub fn len(&self) -> (r: usize)
        ensures
            r == self.filas@.len(),
    {
        self.filas.len()
    }

    /// `true` si no hay filas de datos.
    pub fn is_empty(&self) -> (r: bool)
        ensures
            r == (self.filas@.len() == 0),
    {
        self.filas.len() == 0
    }
}

/// Si `nombre` aparece ya en el prefijo `cab[..m]`, esa es su primera
/// posición en toda la cabecera.
proof fn lema_posicion_prefijo(cab: Seq<Seq<char>>, m: int)
    requires
        0 <= m <= cab.len(),
    ensures
        forall|nombre: Seq<char>|
            #[trigger] posicion_columna(cab.subrange(0, m), nombre) is Some ==> posicion_columna(
                cab,
                nombre,
            ) == posicion_columna(cab.subrange(0, m), nombre),
    decreases cab.len() - m,
{
    if m < cab.len() {
        lema_posicion_prefijo(cab, m + 1);
        assert forall|nombre: Seq<char>|
            #[trigger] posicion_columna(cab.subrange(0, m), nombre) is Some implies posicion_columna(
                cab,
                nombre,
            ) == posicion_columna(cab.subrange(0, m), nombre) by {
            assert(cab.subrange(0, m + 1).drop_last() =~= cab.subrange(0, m));
            assert(posicion_columna(cab.subrange(0, m + 1), nombre) == posicion_columna(
                cab.subrange(0, m),
                nombre,
            ));
        }
    } else {
        assert(cab.subrange(0, m) =~= cab);
    }
}

/// Carácter que Windows-1252 asigna al byte `b` (tabla de WHATWG: la mitad
/// alta coincide con Latin-1 salvo 0x80–0x9F).
pub open spec fn cp1252(b: u8) -> char {
    if b < 0x80 || b >= 0xA0 {
        b as char
    } else if b == 0x80 {
        '\u{20AC}'
    } else if b == 0x82 {
        '\u{201A}'
    } else if b == 0x83 {
        '\u{0192}'
    } else if b == 0x84 {
        '\u{201E}'
    } else if b == 0x85 {
        '\u{2026}'
    } else if b == 0x86 {
        '\u{2020}'
    } else if b == 0x87 {
        '\u{2021}'
    } else if b == 0x88 {
        '\u{02C6}'
    } else if b == 0x89 {
        '\u{2030}'
    } else if b == 0x8A {
        '\u{0160}'
    } else if b == 0x8B {
        '\u{2039}'
    } else if b == 0x8C {
        '\u{0152}'
    } else if b == 0x8E {
        '\u{017D}'
    } else if b == 0x91 {
        '\u{2018}'
    } else if b == 0x92 {
        '\u{2019}'
    } else if b == 0x93 {
        '\u{201C}'
    } else if b == 0x94 {
        '\u{201D}'
    } else if b == 0x95 {
        '\u{2022}'
    } else if b == 0x96 {
        '\u{2013}'
    } else if b == 0x97 {
        '\u{2014}'
    } else if b == 0x98 {
        '\u{02DC}'
    } else if b == 0x99 {
        '\u{2122}'
    } else if b == 0x9A {
        '\u{0161}'
    } else if b == 0x9B {
        '\u{203A}'
    } else if b == 0x9C {
        '\u{0153}'
    } else if b == 0x9E {
        '\u{017E}'
    } else if b == 0x9F {
        '\u{0178}'
    } else {
        // 0x81, 0x8D, 0x8F, 0x90, 0x9D: el control C1 del mismo código.
        b as char
    }
}

/// Los bytes empiezan con una marca de orden (UTF-8 o UTF-16), que hace que
/// el decodificador cambie de codificación.
pub open spec fn empieza_con_bom(b: Seq<u8>) -> bool {
    (b.len() >= 3 && b[0] == 0xEF && b[1] == 0xBB && b[2] == 0xBF) || (b.len() >= 2 && ((b[0]
        == 0xFF && b[1] == 0xFE) || (b[0] == 0xFE && b[1] == 0xFF)))
}

/// Texto que da la decodificación Windows-1252 de `bytes`
/// (`encoding_rs::WINDOWS_1252.decode`).
pub uninterp spec fn decodificacion_cp1252(bytes: Seq<u8>) -> Seq<char>;

/// Decodifica bytes Windows-1252 a texto con `encoding_rs::WINDOWS_1252.decode`.
/// Se afirma que el resultado es función de los bytes y que, sin marca de
/// orden inicial, cada byte da exactamente el carácter de su tabla. Con una
/// marca de orden el decodificador pasa a UTF-8 o UTF-16; de ese caso no se
/// afirma más que el nombre del resultado.
#[verifier::external_body]
pub fn decodificar_cp1252(bytes: &[u8]) -> (r: String)
    ensures
        r@ == decodificacion_cp1252(bytes@),
        !empieza_con_bom(bytes@) ==> r@ == bytes@.map_values(|b: u8| cp1252(b)),
{
    let (texto, _, _) = encoding_rs::WINDOWS_1252.decode(bytes);
    texto.into_owned()
}

/// Registros que el lector `csv` obtiene de `texto` con el delimitador
/// `delimitador` (sin cabecera especial, comilla doble duplicable, filas de
/// ancho variable), o la posición del registro que falló y el mensaje del
/// error.
pub uninterp spec fn registros_csv(texto: Seq<char>, delimitador: u8) -> Result<
    Seq<Seq<Seq<char>>>,
    (nat, Seq<char>),
>;

/// Vista del resultado de leer los registros.
pub open spec fn vista_registros(r: Result<Vec<Vec<String>>, (usize, String)>) -> Result<
    Seq<Seq<Seq<char>>>,
    (nat, Seq<char>),
> {
    match r {
        Ok(v) => Ok(v@.map_values(|f: Vec<String>| vista_fila(f@))),
        Err((n, m)) => Err((n as nat, m@)),
    }
}

/// Lee todos los registros de `texto` con `csv::ReaderBuilder` (sin
/// cabecera, el delimitador dado, comilla doble, comillas dobladas, filas de
/// ancho flexible). Se afirma solo que el resultado es función del texto y
/// del delimitador.
#[verifier::external_body]
pub(crate) fn registros_de(texto: &str, delimitador: u8) -> (r: Result<Vec<Vec<String>>, (usize, String)>)
    ensures
        vista_registros(r) == registros_csv(texto@, delimitador),
{
    let mut lector = csv::ReaderBuilder::new().has_headers(false).delimiter(delimitador).quote(
        b'"',
    ).double_quote(true).flexible(true).from_reader(texto.as_bytes());
    let mut filas = Vec::new();
    for (n, reg) in lector.records().enumerate() {
        match reg {
            Ok(r) => filas.push(r.iter().map(|c| c.to_string()).collect()),
            Err(e) => return Err((n, e.to_string())),
        }
    }
    Ok(filas)
}

/// Una fila ajustada al ancho `n`: se rellena con celdas vacías o se recorta.
pub open spec fn ajustar(f: Seq<Seq<char>>, n: nat) -> Seq<Seq<char>> {
    if f.len() < n {
        f + Seq::new((n - f.len()) as nat, |i: int| Seq::<char>::empty())
    } else {
        f.subrange(0, n as int)
    }
}

/// La tabla que forman unos registros: la cabecera (cada nombre recortado) y
/// las filas ajustadas a su ancho; sin registros, la tabla vacía. Un error de
/// lectura da el error de migración correspondiente.
pub open spec fn tabla_spec(regs: Result<Seq<Seq<Seq<char>>>, (nat, Seq<char>)>) -> Result<
    (Seq<Seq<char>>, Seq<Seq<Seq<char>>>),
    MicErrorSpec,
> {
    match regs {
        Err((n, m)) => Err(
            MicErrorSpec::Migracion(
                if n == 0 {
                    "CSV mal formado (cabecera): "@ + m
                } else {
                    "CSV mal formado: "@ + m
                },
            ),
        ),
        Ok(rs) => if rs.len() == 0 {
            Ok((Seq::empty(), Seq::empty()))
        } else {
            let cab = rs[0].map_values(|c: Seq<char>| recortado(c));
            Ok((cab, rs.drop_first().map_values(|f: Seq<Seq<char>>| ajustar(f, cab.len()))))
        },
    }
}

/// Vista del resultado de leer una tabla.
pub open spec fn vista_lectura(r: Result<TablaCsv, MicError>) -> Result<
    (Seq<Seq<char>>, Seq<Seq<Seq<char>>>),
    MicErrorSpec,
> {
    match r {
        Ok(t) => Ok(vista_tabla(t)),
        Err(e) => Err(e@),
    }
}

/// Fila ajustada al ancho `n`.
fn fila_ajustada(f: &Vec<String>, n: usize) -> (r: Vec<String>)
    ensures
        vista_fila(r@) == ajustar(vista_fila(f@), n as nat),
{
    let mut r: Vec<String> = Vec::new();
    let mut i: usize = 0;
    while i < n
        invariant
            i <= n,
            r@.len() == i,
            forall|k: int|
                0 <= k < i ==> (#[trigger] r@[k])@ == (if k < f@.len() {
                    f@[k]@
                } else {
                    Seq::<char>::empty()
                }),
        decreases n - i,
    {
        if i < f.len() {
            r.push(f[i].clone());
        } else {
            r.push(String::new());
        }
        i += 1;
    }
    assert(vista_fila(r@) =~= ajustar(vista_fila(f@), n as nat));
    r
}

/// La tabla que forman los registros leídos.
pub fn tabla_de_registros(regs: Result<Vec<Vec<String>>, (usize, String)>) -> (r: Result<
    TablaCsv,
    MicError,
>)
    ensures
        vista_lectura(r) == tabla_spec(vista_registros(regs)),
{
    match regs {
        Err((n, m)) => {
            let msg = if n == 0 {
                concatenar("CSV mal formado (cabecera): ", m.as_str())
            } else {
                concatenar("CSV mal formado: ", m.as_str())
            };
            Err(MicError::Migracion(msg))
        },
        Ok(rs) => {
            if rs.len() == 0 {
                let r = TablaCsv { cabecera: Vec::new(), filas: Vec::new() };
                assert(vista_tabla(r).0 =~= Seq::<Seq<char>>::empty());
                assert(vista_tabla(r).1 =~= Seq::<Seq<Seq<char>>>::empty());
                return Ok(r);
            }
            let ghost vr = rs@.map_values(|f: Vec<String>| vista_fila(f@));
            let mut cabecera: Vec<String> = Vec::new();
            let primera = &rs[0];
            assert(vr[0] == vista_fila(primera@));
            let mut i: usize = 0;
            while i < primera.len()
                invariant
                    i <= primera.len(),
                    cabecera@.len() == i,
                    forall|k: int|
                        0 <= k < i ==> (#[trigger] cabecera@[k])@ == recortado(primera@[k]@),
                decreases primera.len() - i,
            {
                let t = recortar(&caracteres(primera[i].as_str()));
                cabecera.push(cadena(&t));
                i += 1;
            }
            let ghost cab = vr[0].map_values(|c: Seq<char>| recortado(c));
            assert(vista_fila(cabecera@) =~= cab);
            let ncols = cabecera.len();
            let mut filas: Vec<Vec<String>> = Vec::new();
            let mut j: usize = 1;
            while j < rs.len()
                invariant
                    1 <= j <= rs.len(),
                    vr == rs@.map_values(|f: Vec<String>| vista_fila(f@)),
                    ncols == cab.len(),
                    filas@.len() == j - 1,
                    forall|k: int|
                        0 <= k < j - 1 ==> vista_fila((#[trigger] filas@[k])@) == ajustar(
                            vr[k + 1],
                            ncols as nat,
                        ),
                decreases rs.len() - j,
            {
                filas.push(fila_ajustada(&rs[j], ncols));
                j += 1;
            }
            let r = TablaCsv { cabecera, filas };
            assert(vista_tabla(r).1 =~= vr.drop_first().map_values(
                |f: Seq<Seq<char>>| ajustar(f, cab.len()),
            ));
            Ok(r)
        },
    }
}

/// Lee una tabla CSV ya decodificada.
pub fn parsear_texto(texto: &str) -> (r: Result<TablaCsv, MicError>)
    ensures
        vista_lectura(r) == tabla_spec(registros_csv(texto@, 0x2Cu8)),
{
    tabla_de_registros(registros_de(texto, 0x2C))
}

/// Decodifica los bytes Windows-1252 y lee la tabla CSV resultante.
pub fn parsear(bytes: &[u8]) -> (r: Result<TablaCsv, MicError>)
    ensures
        vista_lectura(r) == tabla_spec(registros_csv(decodificacion_cp1252(bytes@), 0x2Cu8)),
{
    let texto = decodificar_cp1252(bytes);
    parsear_texto(texto.as_str())
}

} // verus!
