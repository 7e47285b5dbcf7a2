//! Exportación de registros: qué campos y qué formato, el CSV para Excel
//! (UTF-8 con BOM) y el CSV `csv-mic` de los álbumes de Access (sin comillas, separado
//! por comas, en Windows-1252 y con líneas CRLF).
//!
//! Aquí se forman los bytes del archivo; escribirlos en disco queda fuera de
//! la biblioteca verificada.

use vstd::prelude::*;
use crate::migrador::csv_parser::cp1252;
use crate::protocolo::partes;
use vstd::string::*;
use crate::db::query_builder::{unir, unir_exec};
use crate::error::{MicError, MicErrorSpec};
use crate::model::CampoDef;
use crate::texto::{cadena, caracteres, concatenar, concatenar3};

verus! {

/// Separadores que romperían al lector de `csv-mic`: coma, tabulador y saltos de
/// línea.
pub open spec fn rompe_linea(c: char) -> bool {
    c == ',' || c == '\t' || c == '\r' || c == '\n'
}

/// Texto con cada separador sustituido por un espacio.
pub open spec fn saneado(s: Seq<char>) -> Seq<char> {
    s.map_values(|c: char| if rompe_linea(c) { ' ' } else { c })
}

/// Sustituye por espacio las comas, tabuladores y saltos de línea de `s`.
pub fn sanear_mic(s: &str) -> (r: String)
    ensures
        r@ == saneado(s@),
{
    let cs = caracteres(s);
    let mut out: Vec<char> = Vec::new();
    let mut i: usize = 0;
    while i < cs.len()
        invariant
            i <= cs@.len(),
            cs@ == s@,
            out@ == saneado(s@.subrange(0, i as int)),
        decreases cs.len() - i,
    {
        let c = cs[i];
        let d = if c == ',' || c == '\t' || c == '\r' || c == '\n' {
            ' '
        } else {
            c
        };
        out.push(d);
        i += 1;
        assert(out@ =~= saneado(s@.subrange(0, i as int)));
    }
    assert(s@.subrange(0, i as int) =~= s@);
    cadena(out.as_slice())
}

/// Windows-1252 tiene un byte para `c`.
pub open spec fn codificable(c: char) -> bool {
    exists|b: u8| cp1252(b) == c
}

/// Todos los caracteres de `s` tienen byte en Windows-1252.
pub open spec fn todo_codificable(s: Seq<char>) -> bool {
    forall|i: int| 0 <= i < s.len() ==> codificable(#[trigger] s[i])
}

/// `b` tiene un byte por carácter de `s`, el que la tabla le asigna.
pub open spec fn byte_a_byte(s: Seq<char>, b: Seq<u8>) -> bool {
    &&& b.len() == s.len()
    &&& forall|i: int| 0 <= i < s.len() ==> cp1252(#[trigger] b[i]) == s[i]
}

/// Codifica `s` en Windows-1252 con `encoding_rs::WINDOWS_1252.encode`.
/// Da `None` si y solo si la biblioteca externa avisa de error, que es
/// cuando algún carácter no tiene byte en la tabla; si no, cada carácter da
/// el único byte que la tabla le asigna.
#[verifier::external_body]
fn codificar_cp1252(s: &str) -> (salida: Option<Vec<u8>>)
    ensures
        salida is None <==> !todo_codificable(s@),
        salida matches Some(b) ==> byte_a_byte(s@, b@),
{
    let (bytes, _, hubo_error) = encoding_rs::WINDOWS_1252.encode(s);
    if hubo_error {
        None
    } else {
        Some(bytes.into_owned())
    }
}

/// Bytes Windows-1252 de `s` carácter a carácter: el byte de la tabla, o
/// `?` para un carácter sin representación.
pub open spec fn en_cp1252(s: Seq<char>, r: Seq<u8>) -> bool {
    &&& r.len() == s.len()
    &&& forall|i: int|
        0 <= i < s.len() ==> if codificable(#[trigger] s[i]) {
            cp1252(r[i]) == s[i]
        } else {
            r[i] == 0x3Fu8
        }
}

/// Codifica `s` en Windows-1252; los caracteres sin representación se
/// escriben como `?` (y no como referencias HTML, que el lector de `csv-mic`
/// mostraría tal cual).
pub fn a_windows_1252(s: &str) -> (r: Vec<u8>)
    ensures
        en_cp1252(s@, r@),
{
    if let Some(bytes) = codificar_cp1252(s) {
        return bytes;
    }
    let cs = caracteres(s);
    let mut out: Vec<u8> = Vec::new();
    let mut i: usize = 0;
    while i < cs.len()
        invariant
            i <= cs@.len(),
            cs@ == s@,
            out@.len() == i,
            forall|k: int|
                0 <= k < i ==> if codificable(#[trigger] s@[k]) {
                    cp1252(out@[k]) == s@[k]
                } else {
                    out@[k] == 0x3Fu8
                },
        decreases cs.len() - i,
    {
        let c = cs[i];
        let uno = vec![c];
        let t = cadena(uno.as_slice());
        assert(t@[0] == c);
        match codificar_cp1252(t.as_str()) {
            Some(b) => out.push(b[0]),
            None => out.push(0x3Fu8),
        }
        i += 1;
    }
    out
}

/// Celdas unidas por comas.
pub open spec fn unidas(celdas: Seq<Seq<char>>) -> Seq<char>
    decreases celdas.len(),
{
    if celdas.len() == 0 {
        Seq::empty()
    } else if celdas.len() == 1 {
        celdas[0]
    } else {
        unidas(celdas.drop_last()) + seq![','] + celdas.last()
    }
}

/// Texto de una línea del CSV `csv-mic`: las celdas saneadas, unidas por comas
/// y terminadas en CRLF.
pub open spec fn linea_mic(celdas: Seq<Seq<char>>) -> Seq<char> {
    unidas(celdas.map_values(|c: Seq<char>| saneado(c))) + seq!['\r', '\n']
}

/// Texto de la línea del CSV `csv-mic` formada por `celdas`.
pub fn texto_linea(celdas: &[String]) -> (r: String)
    ensures
        r@ == linea_mic(celdas@.map_values(|c: String| c@)),
{
    let ghost vistas = celdas@.map_values(|c: String| c@);
    let mut out = String::new();
    let mut i: usize = 0;
    while i < celdas.len()
        invariant
            i <= celdas@.len(),
            vistas == celdas@.map_values(|c: String| c@),
            out@ == unidas(vistas.subrange(0, i as int).map_values(|c: Seq<char>| saneado(c))),
        decreases celdas.len() - i,
    {
        let ghost previas = vistas.subrange(0, i as int).map_values(|c: Seq<char>| saneado(c));
        let ghost ahora = vistas.subrange(0, i + 1).map_values(|c: Seq<char>| saneado(c));
        assert(ahora.drop_last() =~= previas);
        let limpia = sanear_mic(celdas[i].as_str());
        if i > 0 {
            out.append(",");
        }
        out.append(limpia.as_str());
        i += 1;
        proof {
            reveal_strlit(",");
            if i == 1 {
                assert(ahora.len() == 1);
            }
        }
        assert(out@ =~= unidas(ahora));
    }
    assert(vistas.subrange(0, i as int) =~= vistas);
    out.append("\r\n");
    proof {
        reveal_strlit("\r\n");
    }
    out
}

/// Bytes del CSV `csv-mic`: la línea de encabezados y una línea por fila, cada
/// una codificada en Windows-1252, sin marca de orden.
pub open spec fn csv_mic_spec(encabezados: Seq<Seq<char>>, filas: Seq<Seq<Seq<char>>>, r: Seq<u8>) -> bool {
    exists|partes: Seq<Seq<u8>>|
        {
            &&& partes.len() == filas.len() + 1
            &&& en_cp1252(linea_mic(encabezados), partes[0])
            &&& forall|k: int|
                0 <= k < filas.len() ==> en_cp1252(linea_mic(#[trigger] filas[k]), partes[k + 1])
            &&& r == partes.flatten()
        }
}

/// Forma los bytes del CSV `csv-mic` de los álbumes de Access a partir de los
/// encabezados y las filas ya convertidas a texto.
pub fn csv_mic(encabezados: &[String], filas: &[Vec<String>]) -> (r: Vec<u8>)
    ensures
        csv_mic_spec(
            encabezados@.map_values(|c: String| c@),
            filas@.map_values(|f: Vec<String>| f@.map_values(|c: String| c@)),
            r@,
        ),
{
    let ghost vf = filas@.map_values(|f: Vec<String>| f@.map_values(|c: String| c@));
    let linea = texto_linea(encabezados);
    let mut datos = a_windows_1252(linea.as_str());
    let ghost mut partes: Seq<Seq<u8>> = seq![datos@];
    proof {
        partes.lemma_flatten_singleton();
    }
    let mut i: usize = 0;
    while i < filas.len()
        invariant
            i <= filas@.len(),
            vf == filas@.map_values(|f: Vec<String>| f@.map_values(|c: String| c@)),
            partes.len() == i + 1,
            en_cp1252(linea_mic(encabezados@.map_values(|c: String| c@)), partes[0]),
            forall|k: int| 0 <= k < i ==> en_cp1252(linea_mic(#[trigger] vf[k]), partes[k + 1]),
            datos@ == partes.flatten(),
        decreases filas.len() - i,
    {
        let linea = texto_linea(filas[i].as_slice());
        let b = a_windows_1252(linea.as_str());
        proof {
            partes.lemma_flatten_push(b@);
            partes = partes.push(b@);
        }
        let mut b = b;
        datos.append(&mut b);
        i += 1;
    }
    datos
}

/// Las celdas saneadas.
pub open spec fn saneadas(celdas: Seq<Seq<char>>) -> Seq<Seq<char>> {
    celdas.map_values(|c: Seq<char>| saneado(c))
}

/// Un texto saneado no tiene comas, tabuladores ni saltos de línea.
pub proof fn lema_saneado_sin_separadores(s: Seq<char>)
    ensures
        forall|i: int| 0 <= i < saneado(s).len() ==> !rompe_linea(#[trigger] saneado(s)[i]),
        saneado(s).len() == s.len(),
{
}

proof fn lema_partes_sin_separador(y: Seq<char>, x: Seq<char>)
    requires
        forall|i: int| 0 <= i < y.len() ==> #[trigger] y[i] != ',',
    ensures
        partes(x + seq![','] + y, ',') == partes(x, ',').push(y),
    decreases y.len(),
{
    let s = x + seq![','] + y;
    if y.len() == 0 {
        assert(s =~= x.push(','));
        assert(s.drop_last() =~= x);
        assert(s.last() == ',');
        assert(y =~= Seq::<char>::empty());
    } else {
        let y0 = y.drop_last();
        lema_partes_sin_separador(y0, x);
        assert(s.drop_last() =~= x + seq![','] + y0);
        assert(s.last() == y.last());
        assert(y.last() != ',') by {
            assert(y[y.len() - 1] != ',');
        }
        let p = partes(x + seq![','] + y0, ',');
        assert(p == partes(x, ',').push(y0));
        assert(partes(s, ',') == p.update(p.len() - 1, p.last().push(y.last())));
        assert(y0.push(y.last()) =~= y);
        assert(p.update(p.len() - 1, p.last().push(y.last())) =~= partes(x, ',').push(y));
    }
}

proof fn lema_partes_no_vacias_uno(s: Seq<char>)
    ensures
        partes(s, ',').len() >= 1,
    decreases s.len(),
{
    if s.len() > 0 {
        lema_partes_no_vacias_uno(s.drop_last());
    }
}

proof fn lema_partes_simple(y: Seq<char>)
    requires
        forall|i: int| 0 <= i < y.len() ==> #[trigger] y[i] != ',',
    ensures
        partes(y, ',') == seq![y],
    decreases y.len(),
{
    if y.len() > 0 {
        lema_partes_simple(y.drop_last());
        assert(y.drop_last().push(y.last()) =~= y);
    } else {
        assert(y =~= Seq::<char>::empty());
    }
}

/// Leer una línea del CSV `csv-mic` partiéndola por comas (como hace el
/// importador de `csv-mic` de los álbumes de Access) devuelve exactamente las celdas saneadas:
/// ninguna coma de un valor parte la línea, y no queda ningún salto de línea
/// dentro de ella.
pub proof fn ley_linea_mic_se_parte_en_sus_celdas(celdas: Seq<Seq<char>>)
    requires
        celdas.len() >= 1,
    ensures
        partes(unidas(saneadas(celdas)), ',') == saneadas(celdas),
        forall|i: int|
            0 <= i < unidas(saneadas(celdas)).len() ==> #[trigger] unidas(saneadas(celdas))[i]
                != '\r' && unidas(saneadas(celdas))[i] != '\n',
    decreases celdas.len(),
{
    let sc = saneadas(celdas);
    let ult = saneado(celdas.last());
    lema_saneado_sin_separadores(celdas.last());
    if celdas.len() == 1 {
        assert(sc =~= seq![ult]);
        lema_partes_simple(ult);
    } else {
        let previas = celdas.drop_last();
        ley_linea_mic_se_parte_en_sus_celdas(previas);
        let sp = saneadas(previas);
        assert(sc.drop_last() =~= sp);
        assert(sc.last() == ult);
        assert(unidas(sc) == unidas(sp) + seq![','] + ult);
        lema_partes_sin_separador(ult, unidas(sp));
        assert(sp.push(ult) =~= sc);
        assert forall|i: int| 0 <= i < unidas(sc).len() implies #[trigger] unidas(sc)[i] != '\r'
            && unidas(sc)[i] != '\n' by {
            if i < unidas(sp).len() {
                assert(unidas(sc)[i] == unidas(sp)[i]);
            } else if i > unidas(sp).len() {
                assert(unidas(sc)[i] == ult[i - unidas(sp).len() - 1]);
            }
        }
    }
}

/// Los bytes del CSV `csv-mic`, leídos de nuevo como Windows-1252, dan el
/// texto escrito cuando todos sus caracteres tienen representación.
pub proof fn ley_cp1252_ida_y_vuelta(s: Seq<char>, b: Seq<u8>)
    requires
        en_cp1252(s, b),
        todo_codificable(s),
    ensures
        b.map_values(|x: u8| cp1252(x)) == s,
{
    assert(b.map_values(|x: u8| cp1252(x)) =~= s);
}

// ---------------------------------------------------------------------------
// Selección y formato
// ---------------------------------------------------------------------------

/// Formato de un archivo exportado.
#[derive(Debug, Clone, Copy, PartialEq, Eq, Structural)]
pub enum FormatoExport {
    /// CSV UTF-8 con BOM, para Excel.
    Csv,
    /// Libro de Excel.
    Xlsx,
    /// CSV `csv-mic` de los álbumes de Access.
    CsvMic,
}

/// El formato que nombra un texto (`csv`, `xlsx` o `csv-mic`), o el error.
pub fn formato_exportacion(texto: &str) -> (r: Result<FormatoExport, MicError>)
    ensures
        texto@ == "csv"@ ==> r == Ok::<FormatoExport, MicError>(FormatoExport::Csv),
        texto@ == "xlsx"@ ==> r == Ok::<FormatoExport, MicError>(FormatoExport::Xlsx),
        texto@ == "csv-mic"@ ==> r == Ok::<FormatoExport, MicError>(FormatoExport::CsvMic),
        texto@ != "csv"@ && texto@ != "xlsx"@ && texto@ != "csv-mic"@ ==> (r matches Err(e)
            && e@ == MicErrorSpec::Invalido(
            "formato de exportación no soportado: '"@ + texto@ + "'"@,
        )),
{
    proof {
        reveal_strlit("csv");
        reveal_strlit("xlsx");
        reveal_strlit("csv-mic");
        assert("csv"@ != "xlsx"@) by {
            assert("csv"@[0] != "xlsx"@[0]);
        }
        assert("csv"@ != "csv-mic"@) by {
            assert("csv"@.len() != "csv-mic"@.len());
        }
        assert("xlsx"@ != "csv-mic"@) by {
            assert("xlsx"@[0] != "csv-mic"@[0]);
        }
    }
    let t = String::from_str(texto);
    if t == String::from_str("csv") {
        Ok(FormatoExport::Csv)
    } else if t == String::from_str("xlsx") {
        Ok(FormatoExport::Xlsx)
    } else if t == String::from_str("csv-mic") {
        Ok(FormatoExport::CsvMic)
    } else {
        Err(MicError::Invalido(concatenar3("formato de exportación no soportado: '", texto, "'")))
    }
}

/// Primer campo del álbum llamado `n`.
pub open spec fn campo_llamado(campos: Seq<CampoDef>, n: Seq<char>) -> Option<int>
    decreases campos.len(),
{
    if campos.len() == 0 {
        None
    } else {
        match campo_llamado(campos.drop_last(), n) {
            Some(i) => Some(i),
            None => if campos.last().nombre@ == n {
                Some(campos.len() - 1)
            } else {
                None
            },
        }
    }
}

/// Los campos nombrados, en el orden pedido, sin los nombres desconocidos.
pub open spec fn seleccion_spec(nombres: Seq<String>, campos: Seq<CampoDef>) -> Seq<CampoDef>
    decreases nombres.len(),
{
    if nombres.len() == 0 {
        Seq::empty()
    } else {
        let previos = seleccion_spec(nombres.drop_last(), campos);
        match campo_llamado(campos, nombres.last()@) {
            Some(i) => previos.push(campos[i]),
            None => previos,
        }
    }
}

fn posicion_campo(campos: &[CampoDef], n: &String) -> (r: Option<usize>)
    ensures
        match r {
            Some(i) => i < campos.len() && campo_llamado(campos@, n@) == Some(i as int),
            None => campo_llamado(campos@, n@) is None,
        },
{
    let mut i: usize = 0;
    while i < campos.len()
        invariant
            i <= campos.len(),
            campo_llamado(campos@.subrange(0, i as int), n@) is None,
        decreases campos.len() - i,
    {
        let ghost sub = campos@.subrange(0, i + 1);
        assert(sub.drop_last() =~= campos@.subrange(0, i as int));
        if campos[i].nombre == *n {
            proof {
                lema_campo_llamado(campos@, i + 1, n@);
            }
            return Some(i);
        }
        i += 1;
    }
    assert(campos@.subrange(0, i as int) =~= campos@);
    None
}

proof fn lema_campo_llamado(c: Seq<CampoDef>, m: int, n: Seq<char>)
    requires
        0 <= m <= c.len(),
        campo_llamado(c.subrange(0, m), n) is Some,
    ensures
        campo_llamado(c, n) == campo_llamado(c.subrange(0, m), n),
    decreases c.len() - m,
{
    if m < c.len() {
        assert(c.subrange(0, m + 1).drop_last() =~= c.subrange(0, m));
        lema_campo_llamado(c, m + 1, n);
    } else {
        assert(c.subrange(0, m) =~= c);
    }
}

/// Los campos a exportar, en el orden pedido (los nombres desconocidos se
/// omiten); error si no se pidió ninguno o si ninguno existe.
pub fn seleccion_exportar(nombres: &[String], campos: &[CampoDef]) -> (r: Result<Vec<CampoDef>, MicError>)
    ensures
        nombres.len() == 0 ==> (r matches Err(e) && e@ == MicErrorSpec::Invalido(
            "no hay campos seleccionados para exportar"@,
        )),
        nombres.len() > 0 && seleccion_spec(nombres@, campos@).len() == 0 ==> (r matches Err(e)
            && e@ == MicErrorSpec::Invalido("ninguno de los campos indicados existe en el álbum"@)),
        nombres.len() > 0 && seleccion_spec(nombres@, campos@).len() > 0 ==> (r matches Ok(v) && v@
            == seleccion_spec(nombres@, campos@)),
{
    if nombres.len() == 0 {
        return Err(MicError::Invalido(String::from_str("no hay campos seleccionados para exportar")));
    }
    let mut v: Vec<CampoDef> = Vec::new();
    let mut i: usize = 0;
    while i < nombres.len()
        invariant
            i <= nombres.len(),
            v@ == seleccion_spec(nombres@.subrange(0, i as int), campos@),
        decreases nombres.len() - i,
    {
        let ghost sub = nombres@.subrange(0, i + 1);
        assert(sub.drop_last() =~= nombres@.subrange(0, i as int));
        assert(sub.last() == nombres@[i as int]);
        match posicion_campo(campos, &nombres[i]) {
            Some(k) => {
                v.push(campos[k].copia());
            },
            None => {},
        }
        i += 1;
    }
    assert(nombres@.subrange(0, i as int) =~= nombres@);
    if v.len() == 0 {
        return Err(MicError::Invalido(String::from_str("ninguno de los campos indicados existe en el álbum")));
    }
    Ok(v)
}

/// Texto exportado de un multidato: sus valores unidos con ` | `.
pub fn texto_multidato(valores: &Vec<String>) -> (r: String)
    ensures
        r@ == unir(valores@.map_values(|s: String| s@), " | "@),
{
    unir_exec(valores, " | ")
}

// ---------------------------------------------------------------------------
// CSV para Excel
// ---------------------------------------------------------------------------

/// Los bytes con que `csv::Writer`, en su configuración por omisión, escribe
/// un registro (con su fin de línea).
pub uninterp spec fn registro_escrito(campos: Seq<Seq<char>>) -> Seq<u8>;

/// Los registros escritos uno tras otro.
pub open spec fn registros_escritos(filas: Seq<Seq<Seq<char>>>) -> Seq<u8>
    decreases filas.len(),
{
    if filas.len() == 0 {
        Seq::empty()
    } else {
        registros_escritos(filas.drop_last()) + registro_escrito(filas.last())
    }
}

/// Marca de orden de bytes UTF-8, para que Excel reconozca la codificación.
pub open spec fn bom_utf8() -> Seq<u8> {
    seq![0xEFu8, 0xBBu8, 0xBFu8]
}

pub open spec fn msg_csv(detalle: Seq<char>) -> MicErrorSpec {
    MicErrorSpec::Io("no se pudo escribir el CSV: "@ + detalle)
}

fn anexar_bytes(dest: &mut Vec<u8>, src: &Vec<u8>)
    ensures
        final(dest)@ == old(dest)@ + src@,
{
    let ghost d0 = dest@;
    let mut i: usize = 0;
    while i < src.len()
        invariant
            i <= src.len(),
            dest@ == d0 + src@.subrange(0, i as int),
        decreases src.len() - i,
    {
        dest.push(src[i]);
        i += 1;
        assert(dest@ =~= d0 + src@.subrange(0, i as int));
    }
    assert(src@.subrange(0, i as int) =~= src@);
}

/// Vista de las filas de texto.
pub open spec fn vista_filas(filas: Seq<Vec<String>>) -> Seq<Seq<Seq<char>>> {
    filas.map_values(|f: Vec<String>| f@.map_values(|s: String| s@))
}

/// Todas las filas tienen tantos campos como el encabezado.
pub open spec fn filas_parejas(encabezados: Seq<String>, filas: Seq<Vec<String>>) -> bool {
    forall|i: int| 0 <= i < filas.len() ==> #[trigger] filas[i]@.len() == encabezados.len()
}

/// Escribe el encabezado y las filas con un solo `csv::Writer` en memoria
/// (configuración por omisión, no flexible) y devuelve sus bytes
/// (`write_record` por registro, luego `into_inner`). Se afirma lo que muestra
/// la fuente de `csv`: en memoria no hay error de E/S, y el único error es el
/// de un registro con distinto número de campos que el primero
/// (`UnequalLengths`); los bytes son los de cada registro, uno tras otro. El
/// texto del error es el de la biblioteca.
#[verifier::external_body]
fn escribir_csv(encabezados: &[String], filas: &[Vec<String>]) -> (r: Result<Vec<u8>, String>)
    ensures
        r is Ok <==> filas_parejas(encabezados@, filas@),
        r matches Ok(b) ==> b@ == registro_escrito(encabezados@.map_values(|s: String| s@))
            + registros_escritos(vista_filas(filas@)),
{
    let mut w = csv::Writer::from_writer(Vec::new());
    w.write_record(encabezados).map_err(|e| e.to_string())?;
    for fila in filas {
        w.write_record(fila).map_err(|e| e.to_string())?;
    }
    w.into_inner().map_err(|e| e.to_string())
}

/// El CSV para Excel: la marca UTF-8, el encabezado y las filas, cada
/// registro como lo escribe `csv::Writer` (comillas donde hacen falta, fin de
/// línea `\n`). Falla, con el error de la biblioteca, si alguna fila no
/// tiene tantos campos como el encabezado.
pub fn csv_excel(encabezados: &[String], filas: &[Vec<String>]) -> (r: Result<Vec<u8>, MicError>)
    ensures
        r is Ok <==> filas_parejas(encabezados@, filas@),
        r matches Ok(b) ==> b@ == bom_utf8() + registro_escrito(
            encabezados@.map_values(|s: String| s@),
        ) + registros_escritos(vista_filas(filas@)),
        r matches Err(e) ==> exists|d: Seq<char>| e@ == msg_csv(d),
{
    proof {
        reveal_strlit("no se pudo escribir el CSV: ");
    }
    match escribir_csv(encabezados, filas) {
        Ok(b) => {
            let mut datos: Vec<u8> = Vec::new();
            datos.push(0xEF);
            datos.push(0xBB);
            datos.push(0xBF);
            assert(datos@ =~= bom_utf8());
            anexar_bytes(&mut datos, &b);
            Ok(datos)
        },
        Err(d) => {
            let m = concatenar("no se pudo escribir el CSV: ", d.as_str());
            assert(MicError::Io(m)@ == msg_csv(d@));
            Err(MicError::Io(m))
        },
    }
}

} // verus!
