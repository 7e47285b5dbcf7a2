//! Formato, codificación y separador del archivo a importar, y datos que se
//! devuelven de la inspección y de la importación.

use vstd::prelude::*;
use vstd::string::*;
use crate::error::{MicError, MicErrorSpec};
use crate::migrador::csv_parser::{decodificacion_cp1252, decodificar_cp1252, registros_csv, registros_de, vista_fila};
use crate::texto::{cadena, recortado, recortar};
use crate::texto::{caracteres, minusculas};
use crate::importar::celdas::{campo_columna, posicion_columna_campo};
use crate::model::{CampoDef, TipoCampo};

verus! {

/// Metadatos del archivo a importar (fase de configuración).
#[derive(Debug, Clone)]
pub struct InspeccionImport {
    /// Encabezados del archivo, en orden (sin BOM, ya saneados).
    pub columnas: Vec<String>,
    /// Número de filas de datos (sin el encabezado).
    pub total_filas: u64,
    /// `utf-8`, `utf-8-bom` o `windows-1252` (un XLSX informa `utf-8`).
    pub encoding: String,
    /// `csv` o `xlsx`.
    pub formato: String,
    /// Columnas que casan con un campo principal.
    pub columnas_reconocidas: Vec<String>,
    /// Columnas que no casan con ningún campo (se ignoran).
    pub columnas_no_reconocidas: Vec<String>,
    /// Columnas reconocidas que pueden servir de llave (ni calculado ni
    /// multidato).
    pub campos_llave_sugeridos: Vec<String>,
    /// Huella `len:mtime` del archivo, para detectar cambios.
    pub huella: String,
}

/// Resultado de una importación (análisis en seco o aplicación).
#[derive(Debug, Clone)]
pub struct ResultadoImportacion {
    /// Registros existentes actualizados.
    pub actualizados: u64,
    /// Registros nuevos dados de alta.
    pub creados: u64,
    /// Filas que no produjeron cambios.
    pub sin_cambio: u64,
    /// Errores por celda o fila (no abortan el lote).
    pub errores: Vec<String>,
    /// Avisos globales.
    pub avisos: Vec<String>,
    /// `true` si fue un análisis en seco.
    pub dry_run: bool,
}

impl Default for ResultadoImportacion {
    fn default() -> (r: ResultadoImportacion)
        ensures
            r.actualizados == 0 && r.creados == 0 && r.sin_cambio == 0 && r.errores@.len() == 0
                && r.avisos@.len() == 0 && !r.dry_run,
    {
        ResultadoImportacion {
            actualizados: 0,
            creados: 0,
            sin_cambio: 0,
            errores: Vec::new(),
            avisos: Vec::new(),
            dry_run: false,
        }
    }
}

/// Formato del archivo a importar.
#[derive(Debug, Clone, Copy, PartialEq, Eq, Structural)]
pub enum FormatoArchivo {
    Csv,
    Xlsx,
}

/// Formato que corresponde a una extensión: las de hoja de cálculo (`xlsx`,
/// `xlsm`, `xlsb`, `xls`, `ods`, sin distinguir mayúsculas) son XLSX; el
/// resto, y la ausencia de extensión, CSV.
pub open spec fn formato_de_extension(ext: Option<Seq<char>>) -> FormatoArchivo {
    match ext {
        Some(e) => {
            let m = minusculas(e);
            if m == "xlsx"@ || m == "xlsm"@ || m == "xlsb"@ || m == "xls"@ || m == "ods"@ {
                FormatoArchivo::Xlsx
            } else {
                FormatoArchivo::Csv
            }
        },
        None => FormatoArchivo::Csv,
    }
}

/// Formato de una extensión de archivo.
pub fn formato_por_extension(ext: Option<&str>) -> (r: FormatoArchivo)
    ensures
        r == formato_de_extension(
            match ext {
                Some(e) => Some(e@),
                None => None,
            },
        ),
{
    match ext {
        Some(e) => {
            let m = crate::texto::en_minusculas(&caracteres(e));
            let s = crate::texto::cadena(&m);
            if s == String::from_str("xlsx") || s == String::from_str("xlsm") || s
                == String::from_str("xlsb") || s == String::from_str("xls") || s == String::from_str(
                "ods",
            ) {
                FormatoArchivo::Xlsx
            } else {
                FormatoArchivo::Csv
            }
        },
        None => FormatoArchivo::Csv,
    }
}

/// Índice del último `.` de `s`, o -1 si no hay ninguno.
pub open spec fn ultimo_punto(s: Seq<char>) -> int
    decreases s.len(),
{
    if s.len() == 0 {
        -1
    } else if s.last() == '.' {
        s.len() - 1
    } else {
        ultimo_punto(s.drop_last())
    }
}

/// Extensión de un nombre de archivo: lo que sigue a su último `.`; ninguna si
/// no hay `.` o si el único `.` es el primer carácter (`.oculto`).
pub open spec fn extension_de_nombre(nombre: Seq<char>) -> Option<Seq<char>> {
    let i = ultimo_punto(nombre);
    if i <= 0 {
        None
    } else {
        Some(nombre.subrange(i + 1, nombre.len() as int))
    }
}

/// Una ruta que es un solo nombre de archivo en toda plataforma: no vacía, sin
/// separadores (`/`, `\`), sin `:` (que abre un prefijo de unidad) y distinta
/// de `.` y de `..`.
pub open spec fn nombre_simple(ruta: Seq<char>) -> bool {
    &&& ruta.len() > 0
    &&& !ruta.contains('/')
    &&& !ruta.contains('\\')
    &&& !ruta.contains(':')
    &&& ruta != seq!['.']
    &&& ruta != seq!['.', '.']
}

/// `e` puede ser la extensión de `ruta`: no tiene `.` ni `/`, y aparece en la
/// ruta justo detrás de un `.`.
pub open spec fn extension_posible(ruta: Seq<char>, e: Seq<char>) -> bool {
    &&& !e.contains('.')
    &&& !e.contains('/')
    &&& exists|k: int|
        0 <= k && k + 1 + e.len() <= ruta.len() && #[trigger] ruta[k] == '.' && ruta.subrange(
            k + 1,
            k + 1 + e.len(),
        ) == e
}

/// La vista de una extensión leída.
pub open spec fn vista_extension(r: Option<String>) -> Option<Seq<char>> {
    match r {
        Some(e) => Some(e@),
        None => None,
    }
}

/// Extensión de la ruta según `std::path::Path::extension`: la parte del
/// nombre de archivo (último componente de la ruta) que sigue a su último `.`,
/// sin extensión si el nombre no tiene `.` o solo lo tiene al inicio. Qué es
/// separador y qué es prefijo depende de la plataforma, así que se afirma lo
/// que vale en todas: la extensión no tiene `.` ni `/` y sigue a un `.` de la
/// ruta; una ruta sin `.` no tiene extensión; y la extensión de una ruta que
/// es un solo nombre (sin `/`, `\` ni `:`, distinta de `.` y `..`) es la de
/// ese nombre. Lo que da en las demás rutas no se afirma.
#[verifier::external_body]
pub(crate) fn extension_de(ruta: &str) -> (r: Option<String>)
    ensures
        r matches Some(e) ==> extension_posible(ruta@, e@),
        !ruta@.contains('.') ==> r is None,
        nombre_simple(ruta@) ==> vista_extension(r) == extension_de_nombre(ruta@),
{
    std::path::Path::new(ruta).extension().and_then(|e| e.to_str()).map(|e| e.to_string())
}

/// Detecta el formato por la extensión (`.xlsx` y demás hojas de cálculo →
/// XLSX; el resto se trata como CSV). La extensión es la de
/// `Path::extension`: en una ruta que es un solo nombre de archivo, la de ese
/// nombre; una ruta sin `.` es CSV; en toda ruta, el formato es el de una
/// extensión que sigue a un `.` de la ruta, o el de ninguna.
pub fn detectar_formato(ruta: &str) -> (r: FormatoArchivo)
    ensures
        nombre_simple(ruta@) ==> r == formato_de_extension(extension_de_nombre(ruta@)),
        !ruta@.contains('.') ==> r == formato_de_extension(None),
        r == formato_de_extension(None) || exists|e: Seq<char>|
            #[trigger] extension_posible(ruta@, e) && r == formato_de_extension(Some(e)),
{
    let ext = extension_de(ruta);
    match &ext {
        Some(e) => formato_por_extension(Some(e.as_str())),
        None => formato_por_extension(None),
    }
}

/// Texto que denotan unos bytes UTF-8 (`std::str::from_utf8`), o `None` si
/// no son UTF-8 válido.
pub uninterp spec fn texto_utf8(bytes: Seq<u8>) -> Option<Seq<char>>;

/// Texto de unos bytes con las secuencias inválidas sustituidas por el
/// carácter de reemplazo (`String::from_utf8_lossy`).
pub uninterp spec fn utf8_con_reemplazo(bytes: Seq<u8>) -> Seq<char>;

/// `std::str::from_utf8`: se afirma que el resultado es función de los bytes.
#[verifier::external_body]
fn leer_utf8(bytes: &[u8]) -> (r: Option<String>)
    ensures
        match texto_utf8(bytes@) {
            Some(t) => r matches Some(s) && s@ == t,
            None => r is None,
        },
{
    std::str::from_utf8(bytes).ok().map(|s| s.to_string())
}

/// `String::from_utf8_lossy`: se afirma que el resultado es función de los
/// bytes y que coincide con la lectura estricta cuando esta tiene éxito.
#[verifier::external_body]
fn leer_utf8_con_reemplazo(bytes: &[u8]) -> (r: String)
    ensures
        r@ == utf8_con_reemplazo(bytes@),
        texto_utf8(bytes@) matches Some(t) ==> r@ == t,
{
    String::from_utf8_lossy(bytes).into_owned()
}

/// Decodificación en cascada: con BOM UTF-8 (`EF BB BF`), el resto como
/// UTF-8 (`utf-8-bom`); si no, UTF-8 estricto (`utf-8`); si no es UTF-8
/// válido, Windows-1252 (`windows-1252`).
pub open spec fn decodificado_spec(b: Seq<u8>) -> (Seq<char>, Seq<char>) {
    if b.len() >= 3 && b[0] == 0xEF && b[1] == 0xBB && b[2] == 0xBF {
        (utf8_con_reemplazo(b.subrange(3, b.len() as int)), "utf-8-bom"@)
    } else if texto_utf8(b) is Some {
        (texto_utf8(b)->Some_0, "utf-8"@)
    } else {
        (decodificacion_cp1252(b), "windows-1252"@)
    }
}

/// Decodifica los bytes en cascada y devuelve el texto y la etiqueta de su
/// codificación. Todo flujo de bytes es Windows-1252 válido, por eso se
/// prueba UTF-8 antes.
pub fn decodificar(bytes: &[u8]) -> (r: (String, String))
    ensures
        (r.0@, r.1@) == decodificado_spec(bytes@),
{
    if bytes.len() >= 3 && bytes[0] == 0xEF && bytes[1] == 0xBB && bytes[2] == 0xBF {
        let resto = slice_desde(bytes, 3);
        return (leer_utf8_con_reemplazo(resto.as_slice()), String::from_str("utf-8-bom"));
    }
    match leer_utf8(bytes) {
        Some(s) => (s, String::from_str("utf-8")),
        None => (decodificar_cp1252(bytes), String::from_str("windows-1252")),
    }
}

/// Copia de `b[desde..]`.
fn slice_desde(b: &[u8], desde: usize) -> (r: Vec<u8>)
    requires
        desde <= b@.len(),
    ensures
        r@ == b@.subrange(desde as int, b@.len() as int),
{
    let mut r: Vec<u8> = Vec::new();
    let mut i: usize = desde;
    while i < b.len()
        invariant
            desde <= i <= b@.len(),
            r@ == b@.subrange(desde as int, i as int),
        decreases b@.len() - i,
    {
        r.push(b[i]);
        i += 1;
        assert(r@ =~= b@.subrange(desde as int, i as int));
    }
    r
}

/// Cuentas de comas, puntos y comas y tabuladores fuera de comillas en `s`,
/// con el estado de comillas al final.
pub open spec fn cuentas(s: Seq<char>) -> (nat, nat, nat, bool)
    decreases s.len(),
{
    if s.len() == 0 {
        (0, 0, 0, false)
    } else {
        let (c, p, t, q) = cuentas(s.drop_last());
        let ch = s.last();
        if ch == '"' {
            (c, p, t, !q)
        } else if ch == ',' && !q {
            (c + 1, p, t, q)
        } else if ch == ';' && !q {
            (c, p + 1, t, q)
        } else if ch == '\t' && !q {
            (c, p, t + 1, q)
        } else {
            (c, p, t, q)
        }
    }
}

/// Primera línea de un texto (hasta el primer salto de línea).
pub open spec fn primera_linea(s: Seq<char>) -> Seq<char>
    decreases s.len(),
{
    if s.len() == 0 || s[0] == '\n' {
        Seq::empty()
    } else {
        seq![s[0]] + primera_linea(s.drop_first())
    }
}

/// Separador elegido: el más frecuente fuera de comillas en la primera
/// línea; los empates y la ausencia de candidatos favorecen la coma, y entre
/// punto y coma y tabulador, el punto y coma.
pub open spec fn separador_spec(s: Seq<char>) -> u8 {
    let (c, p, t, _) = cuentas(primera_linea(s));
    if (c == 0 && p == 0 && t == 0) || (c >= p && c >= t) {
        0x2C
    } else if p >= t {
        0x3B
    } else {
        0x09
    }
}

/// Detecta el separador de un CSV (`,` `;` o tabulador) contando los
/// candidatos fuera de comillas en la línea de encabezado.
pub fn detectar_separador(texto: &str) -> (r: u8)
    ensures
        r == separador_spec(texto@),
{
    let v = caracteres(texto);
    let mut fin: usize = 0;
    assert(v@.subrange(0, v.len() as int) =~= v@);
    assert(v@.subrange(0, 0) + primera_linea(v@) =~= primera_linea(v@));
    while fin < v.len() && v[fin] != '\n'
        invariant
            fin <= v.len(),
            primera_linea(v@) == v@.subrange(0, fin as int) + primera_linea(
                v@.subrange(fin as int, v.len() as int),
            ),
        decreases v.len() - fin,
    {
        assert(v@.subrange(fin as int, v.len() as int).drop_first() =~= v@.subrange(
            fin + 1,
            v.len() as int,
        ));
        assert(v@.subrange(0, fin + 1) =~= v@.subrange(0, fin as int) + seq![v@[fin as int]]);
        fin += 1;
    }
    let ghost linea = v@.subrange(0, fin as int);
    proof {
        assert(primera_linea(v@.subrange(fin as int, v.len() as int)) =~= Seq::<char>::empty());
        assert(primera_linea(v@) =~= linea);
    }
    let mut comas: usize = 0;
    let mut pcomas: usize = 0;
    let mut tabs: usize = 0;
    let mut en_comillas = false;
    let mut i: usize = 0;
    while i < fin
        invariant
            i <= fin <= v.len(),
            linea == v@.subrange(0, fin as int),
            (comas as nat, pcomas as nat, tabs as nat, en_comillas) == cuentas(
                linea.subrange(0, i as int),
            ),
            comas <= i && pcomas <= i && tabs <= i,
        decreases fin - i,
    {
        assert(linea.subrange(0, i + 1).drop_last() =~= linea.subrange(0, i as int));
        let ch = v[i];
        if ch == '"' {
            en_comillas = !en_comillas;
        } else if ch == ',' && !en_comillas {
            comas += 1;
        } else if ch == ';' && !en_comillas {
            pcomas += 1;
        } else if ch == '\t' && !en_comillas {
            tabs += 1;
        }
        i += 1;
    }
    assert(linea.subrange(0, fin as int) =~= linea);
    if (comas == 0 && pcomas == 0 && tabs == 0) || (comas >= pcomas && comas >= tabs) {
        0x2C
    } else if pcomas >= tabs {
        0x3B
    } else {
        0x09
    }
}

/// `s` sin las marcas de orden (`U+FEFF`) iniciales.
pub open spec fn sin_bom_inicial(s: Seq<char>) -> Seq<char>
    decreases s.len(),
{
    if s.len() > 0 && s[0] == '\u{FEFF}' {
        sin_bom_inicial(s.drop_first())
    } else {
        s
    }
}

/// Quita las marcas de orden iniciales.
fn quitar_bom(s: &str) -> (r: String)
    ensures
        r@ == sin_bom_inicial(s@),
{
    let v = caracteres(s);
    let mut i: usize = 0;
    assert(v@.subrange(0, v@.len() as int) =~= v@);
    while i < v.len() && v[i] == '\u{FEFF}'
        invariant
            i <= v@.len(),
            v@ == s@,
            sin_bom_inicial(v@.subrange(i as int, v@.len() as int)) == sin_bom_inicial(s@),
        decreases v.len() - i,
    {
        assert(v@.subrange(i as int, v@.len() as int).drop_first() =~= v@.subrange(
            i + 1,
            v@.len() as int,
        ));
        i += 1;
    }
    let mut r: Vec<char> = Vec::new();
    let mut k: usize = i;
    while k < v.len()
        invariant
            i <= k <= v@.len(),
            r@ == v@.subrange(i as int, k as int),
        decreases v.len() - k,
    {
        r.push(v[k]);
        k += 1;
        assert(r@ =~= v@.subrange(i as int, k as int));
    }
    cadena(r.as_slice())
}

/// Una fila rellenada con celdas vacías hasta `n` (las más largas quedan
/// igual).
pub open spec fn rellenar(f: Seq<Seq<char>>, n: nat) -> Seq<Seq<char>> {
    if f.len() < n {
        f + Seq::new((n - f.len()) as nat, |i: int| Seq::<char>::empty())
    } else {
        f
    }
}

/// Nombre de columna: sin marcas de orden iniciales ni blancos en los
/// extremos.
pub open spec fn encabezado_limpio(c: Seq<char>) -> Seq<char> {
    recortado(sin_bom_inicial(c))
}

/// Lo que se lee de un CSV: decodificado en cascada, sin marcas de orden
/// iniciales, con el separador detectado; la primera fila son los
/// encabezados (limpios) y las demás se rellenan hasta su ancho. Un error
/// del lector es de E/S; sin filas, el archivo es inválido.
pub open spec fn csv_leido_spec(bytes: Seq<u8>) -> Result<
    (Seq<Seq<char>>, Seq<Seq<Seq<char>>>, Seq<char>, u8),
    MicErrorSpec,
> {
    let (texto, enc) = decodificado_spec(bytes);
    let t = sin_bom_inicial(texto);
    let sep = separador_spec(t);
    match registros_csv(t, sep) {
        Err((n, m)) => Err(MicErrorSpec::Io("error al leer el CSV: "@ + m)),
        Ok(rs) => if rs.len() == 0 {
            Err(MicErrorSpec::Invalido("el archivo está vacío (sin encabezados)"@))
        } else {
            let cab = rs[0].map_values(|c: Seq<char>| encabezado_limpio(c));
            Ok((cab, rs.drop_first().map_values(|f: Seq<Seq<char>>| rellenar(f, cab.len())), enc, sep))
        },
    }
}

/// Vista de lo leído de un CSV.
pub open spec fn vista_csv_leido(r: Result<(Vec<String>, Vec<Vec<String>>, String, u8), MicError>) -> Result<
    (Seq<Seq<char>>, Seq<Seq<Seq<char>>>, Seq<char>, u8),
    MicErrorSpec,
> {
    match r {
        Ok((e, f, c, s)) => Ok((vista_fila(e@), f@.map_values(|x: Vec<String>| vista_fila(x@)), c@, s)),
        Err(e) => Err(e@),
    }
}

/// Fila rellenada con celdas vacías hasta `n`.
fn fila_rellenada(f: Vec<String>, n: usize) -> (r: Vec<String>)
    ensures
        vista_fila(r@) == rellenar(vista_fila(f@), n as nat),
{
    let mut r = f;
    let ghost original = vista_fila(r@);
    let ghost mut m: nat = 0;
    assert(original + Seq::new(0, |i: int| Seq::<char>::empty()) =~= original);
    while r.len() < n
        invariant
            vista_fila(r@) == original + Seq::new(m, |i: int| Seq::<char>::empty()),
            m > 0 ==> original.len() + m <= n,
        decreases n - r.len(),
    {
        let ghost antes = vista_fila(r@);
        r.push(String::new());
        assert(vista_fila(r@) =~= antes.push(Seq::<char>::empty()));
        proof {
            assert(Seq::new(m + 1, |i: int| Seq::<char>::empty()) =~= Seq::new(
                m,
                |i: int| Seq::<char>::empty(),
            ).push(Seq::<char>::empty()));
            assert((original + Seq::new(m, |i: int| Seq::<char>::empty())).push(Seq::<char>::empty())
                =~= original + Seq::new(m + 1, |i: int| Seq::<char>::empty()));
            m = m + 1;
        }
    }
    proof {
        if original.len() < n {
            assert(m == n - original.len());
        } else {
            assert(m == 0);
            assert(vista_fila(r@) =~= original);
        }
    }
    r
}

/// Lee un CSV a partir de sus bytes: encabezados, filas, codificación y
/// separador.
pub fn csv_de_bytes(bytes: &[u8]) -> (r: Result<(Vec<String>, Vec<Vec<String>>, String, u8), MicError>)
    ensures
        vista_csv_leido(r) == csv_leido_spec(bytes@),
{
    let (texto, encoding) = decodificar(bytes);
    let t = quitar_bom(texto.as_str());
    let sep = detectar_separador(t.as_str());
    let registros = match registros_de(t.as_str(), sep) {
        Ok(x) => x,
        Err((_, m)) => {
            let mut msg = String::from_str("error al leer el CSV: ");
            msg.append(m.as_str());
            return Err(MicError::Io(msg));
        },
    };
    if registros.len() == 0 {
        proof {
            reveal_strlit("el archivo está vacío (sin encabezados)");
        }
        return Err(MicError::Invalido(String::from_str("el archivo está vacío (sin encabezados)")));
    }
    let ghost rs = registros@.map_values(|f: Vec<String>| vista_fila(f@));
    let mut resto = registros;
    let primera = resto.remove(0);
    assert(resto@.map_values(|f: Vec<String>| vista_fila(f@)) =~= rs.drop_first());
    let ghost cab_spec = rs[0].map_values(|c: Seq<char>| encabezado_limpio(c));
    let mut encabezados: Vec<String> = Vec::new();
    let mut j: usize = 0;
    while j < primera.len()
        invariant
            j <= primera@.len(),
            rs.len() > 0,
            vista_fila(primera@) == rs[0],
            cab_spec == rs[0].map_values(|c: Seq<char>| encabezado_limpio(c)),
            vista_fila(encabezados@) == cab_spec.subrange(0, j as int),
        decreases primera.len() - j,
    {
        let sin = quitar_bom(primera[j].as_str());
        let limpio = cadena(recortar(&caracteres(sin.as_str())).as_slice());
        assert(primera@[j as int]@ == rs[0][j as int]);
        assert(limpio@ == cab_spec[j as int]);
        let ghost prev = vista_fila(encabezados@);
        encabezados.push(limpio);
        assert(vista_fila(encabezados@) =~= prev.push(limpio@));
        assert(cab_spec.subrange(0, j + 1) =~= cab_spec.subrange(0, j as int).push(cab_spec[j as int]));
        j += 1;
        assert(vista_fila(encabezados@) =~= cab_spec.subrange(0, j as int));
    }
    assert(cab_spec.subrange(0, j as int) =~= cab_spec);
    let ancho = encabezados.len();
    let ghost filas_spec = rs.drop_first().map_values(|f: Seq<Seq<char>>| rellenar(f, cab_spec.len()));
    let mut filas: Vec<Vec<String>> = Vec::new();
    let ghost total = resto@.len();
    let total_exec: usize = resto.len();
    let mut k: usize = 0;
    while resto.len() > 0
        invariant
            k + resto@.len() == total,
            total == total_exec,
            total == rs.len() - 1,
            ancho == cab_spec.len(),
            filas_spec == rs.drop_first().map_values(|f: Seq<Seq<char>>| rellenar(f, cab_spec.len())),
            resto@.map_values(|f: Vec<String>| vista_fila(f@)) == rs.drop_first().subrange(
                k as int,
                total as int,
            ),
            filas@.map_values(|f: Vec<String>| vista_fila(f@)) == filas_spec.subrange(0, k as int),
        decreases resto@.len(),
    {
        let ghost antes = resto@.map_values(|f: Vec<String>| vista_fila(f@));
        let ghost viejo = resto@;
        let f = resto.remove(0);
        assert(resto@ =~= viejo.subrange(1, viejo.len() as int));
        assert(vista_fila(f@) == antes[0]);
        assert(resto@.map_values(|f: Vec<String>| vista_fila(f@)) =~= antes.subrange(
            1,
            antes.len() as int,
        ));
        assert(resto@.map_values(|f: Vec<String>| vista_fila(f@)) =~= rs.drop_first().subrange(
            k + 1,
            total as int,
        ));
        let ghost prevf = filas@.map_values(|f: Vec<String>| vista_fila(f@));
        let hecha = fila_rellenada(f, ancho);
        assert(antes[0] == rs.drop_first()[k as int]);
        assert(vista_fila(hecha@) == filas_spec[k as int]);
        filas.push(hecha);
        assert(filas@.map_values(|f: Vec<String>| vista_fila(f@)) =~= prevf.push(vista_fila(hecha@)));
        assert(filas_spec.subrange(0, k + 1) =~= filas_spec.subrange(0, k as int).push(filas_spec[k as int]));
        k += 1;
        assert(filas@.map_values(|f: Vec<String>| vista_fila(f@)) =~= filas_spec.subrange(
            0,
            k as int,
        ));
    }
    assert(filas_spec.subrange(0, k as int) =~= filas_spec);
    Ok((encabezados, filas, encoding, sep))
}

/// Columnas del archivo según casen con un campo principal del álbum.
#[derive(Debug, Clone)]
pub struct ColumnasClasificadas {
    /// Las que casan con un campo.
    pub reconocidas: Vec<String>,
    /// Las que no casan con ninguno (se ignoran).
    pub no_reconocidas: Vec<String>,
    /// Las que casan con un campo que puede ser llave (ni calculado ni
    /// multidato).
    pub llaves_sugeridas: Vec<String>,
}

/// La columna casa con un campo que sirve de llave.
pub open spec fn sirve_de_llave(campos: Seq<CampoDef>, col: Seq<char>) -> bool {
    match campo_columna(campos, col) {
        Some(i) => campos[i].tipo != TipoCampo::Calculado && campos[i].tipo != TipoCampo::Multidato,
        None => false,
    }
}

/// Clase de una columna del archivo.
#[derive(Debug, Clone, Copy, PartialEq, Eq, Structural)]
pub enum ClaseColumna {
    Reconocida,
    NoReconocida,
    LlaveSugerida,
}

/// La columna `col` es de la clase `k`.
pub open spec fn de_clase(campos: Seq<CampoDef>, col: Seq<char>, k: ClaseColumna) -> bool {
    match k {
        ClaseColumna::Reconocida => campo_columna(campos, col) is Some,
        ClaseColumna::NoReconocida => campo_columna(campos, col) is None,
        ClaseColumna::LlaveSugerida => sirve_de_llave(campos, col),
    }
}

/// Las columnas de `cols` de la clase `k`, en orden.
pub open spec fn columnas_de_clase(cols: Seq<String>, campos: Seq<CampoDef>, k: ClaseColumna) -> Seq<Seq<char>>
    decreases cols.len(),
{
    if cols.len() == 0 {
        Seq::empty()
    } else {
        let previas = columnas_de_clase(cols.drop_last(), campos, k);
        if de_clase(campos, cols.last()@, k) {
            previas.push(cols.last()@)
        } else {
            previas
        }
    }
}

/// Clasifica los encabezados del archivo: reconocidos (casan con un campo
/// principal), no reconocidos, y los que pueden servir de llave.
pub fn clasificar_columnas(encabezados: &[String], campos: &[CampoDef]) -> (r: ColumnasClasificadas)
    ensures
        r.reconocidas@.map_values(|s: String| s@) == columnas_de_clase(
            encabezados@,
            campos@,
            ClaseColumna::Reconocida,
        ),
        r.no_reconocidas@.map_values(|s: String| s@) == columnas_de_clase(
            encabezados@,
            campos@,
            ClaseColumna::NoReconocida,
        ),
        r.llaves_sugeridas@.map_values(|s: String| s@) == columnas_de_clase(
            encabezados@,
            campos@,
            ClaseColumna::LlaveSugerida,
        ),
{
    let mut rec: Vec<String> = Vec::new();
    let mut nor: Vec<String> = Vec::new();
    let mut sug: Vec<String> = Vec::new();
    let mut i: usize = 0;
    while i < encabezados.len()
        invariant
            i <= encabezados.len(),
            rec@.map_values(|s: String| s@) == columnas_de_clase(encabezados@.subrange(0, i as int), campos@, ClaseColumna::Reconocida),
            nor@.map_values(|s: String| s@) == columnas_de_clase(encabezados@.subrange(0, i as int), campos@, ClaseColumna::NoReconocida),
            sug@.map_values(|s: String| s@) == columnas_de_clase(encabezados@.subrange(0, i as int), campos@, ClaseColumna::LlaveSugerida),
        decreases encabezados.len() - i,
    {
        let ghost sub = encabezados@.subrange(0, i + 1);
        assert(sub.drop_last() =~= encabezados@.subrange(0, i as int));
        assert(sub.last() == encabezados@[i as int]);
        let col = &encabezados[i];
        let ghost r0 = rec@.map_values(|s: String| s@);
        let ghost n0 = nor@.map_values(|s: String| s@);
        let ghost s0 = sug@.map_values(|s: String| s@);
        match posicion_columna_campo(campos, col.as_str()) {
            Some(k) => {
                rec.push(col.clone());
                assert(rec@.map_values(|s: String| s@) =~= r0.push(col@));
                if campos[k].tipo != TipoCampo::Calculado && campos[k].tipo != TipoCampo::Multidato {
                    sug.push(col.clone());
                    assert(sug@.map_values(|s: String| s@) =~= s0.push(col@));
                }
            },
            None => {
                nor.push(col.clone());
                assert(nor@.map_values(|s: String| s@) =~= n0.push(col@));
            },
        }
        i += 1;
    }
    assert(encabezados@.subrange(0, i as int) =~= encabezados@);
    ColumnasClasificadas { reconocidas: rec, no_reconocidas: nor, llaves_sugeridas: sug }
}

} // verus!
