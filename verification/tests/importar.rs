use mic::error::MicError;
use mic::importar::archivo::{csv_de_bytes, decodificar, detectar_formato, detectar_separador, formato_por_extension, FormatoArchivo};
use mic::importar::celdas::{campo_para_columna, parsear_fecha, parsear_numero, Politica};
use mic::importar::preparar::{casar_columnas, casar_filas, clave_textual, normalizar_valor, CeldaNorm};
use mic::exportar::csv_mic;
use mic::model::{CampoDef, Tabla, TipoCampo};

fn campo_def(nombre: &str, tipo: TipoCampo) -> CampoDef {
    CampoDef {
        id: 0,
        nombre: nombre.to_string(),
        col_fisica: String::new(),
        tabla: Tabla::Principal,
        tipo,
        decimales: 2,
        totalizable: false,
        formula: None,
        visible: true,
        modificable: true,
        orden_visible: 0,
        formato: None,
    }
}

fn numero(c: CeldaNorm) -> f64 {
    match c {
        CeldaNorm::Numero(t) => t.parse::<f64>().unwrap(),
        _ => panic!("esperaba número"),
    }
}

// --- normalización -------------------------------------------------------------

#[test]
fn numero_con_miles_y_simbolos() {
    let num = campo_def("Precio", TipoCampo::Moneda);
    let n = numero(normalizar_valor("$1,234.50", &num, b',').unwrap());
    assert!((n - 1234.5).abs() < 1e-9);
    let n = numero(normalizar_valor("1.234,50", &num, b';').unwrap());
    assert!((n - 1234.5).abs() < 1e-9);
    let n = numero(normalizar_valor("12,5", &num, b';').unwrap());
    assert!((n - 12.5).abs() < 1e-9);
}

#[test]
fn numero_invalido_es_error() {
    let num = campo_def("Precio", TipoCampo::Numerico);
    assert!(normalizar_valor("no-numero", &num, b',').is_err());
}

#[test]
fn fecha_iso_y_ddmmaaaa() {
    let fecha = campo_def("Vence", TipoCampo::Fecha);
    for entrada in ["2026-06-05", "05/06/2026", "05-06-2026"] {
        match normalizar_valor(entrada, &fecha, b',').unwrap() {
            CeldaNorm::Texto(s) => assert_eq!(s, "2026-06-05"),
            _ => panic!("esperaba fecha ISO para {entrada}"),
        }
    }
    assert!(normalizar_valor("no-fecha", &fecha, b',').is_err());
}

#[test]
fn multidato_split() {
    let multi = campo_def("Etiquetas", TipoCampo::Multidato);
    match normalizar_valor("a | b|c|", &multi, b',').unwrap() {
        CeldaNorm::Multi(v) => assert_eq!(v, vec!["a", "b", "c"]),
        _ => panic!("esperaba multidato"),
    }
}

#[test]
fn texto_tal_cual_y_vacio_omite() {
    let txt = campo_def("Nombre", TipoCampo::Texto);
    match normalizar_valor("  hola mundo  ", &txt, b',').unwrap() {
        CeldaNorm::Texto(s) => assert_eq!(s, "hola mundo"),
        _ => panic!("esperaba texto"),
    }
    assert!(matches!(normalizar_valor("   ", &txt, b',').unwrap(), CeldaNorm::Omitir));
}

#[test]
fn calculado_se_omite() {
    let calc = campo_def("Total", TipoCampo::Calculado);
    assert!(matches!(normalizar_valor("999", &calc, b',').unwrap(), CeldaNorm::Omitir));
}

// --- casamiento ----------------------------------------------------------------

#[test]
fn casa_columnas_case_insensitive_y_desordenado() {
    let campos = vec![campo_def("Clave", TipoCampo::Texto), campo_def("Precio", TipoCampo::Moneda)];
    assert!(campo_para_columna(&campos, "  precio ").is_some());
    assert!(campo_para_columna(&campos, "CLAVE").is_some());
    assert!(campo_para_columna(&campos, "desconocida").is_none());
}

// --- propias -------------------------------------------------------------------

#[test]
fn llave_duplicada_usa_la_primera_fila() {
    let campos = vec![campo_def("Clave", TipoCampo::Texto), campo_def("Nombre", TipoCampo::Texto)];
    let enc = vec!["clave".to_string(), "NOMBRE".to_string()];
    let casado = casar_columnas(&enc, &campos, "Clave").unwrap();
    assert_eq!(casado.indice_llave, 0);
    let filas = vec![
        vec!["A-1".to_string(), "primera".to_string()],
        vec!["A-1".to_string(), "segunda".to_string()],
        vec!["".to_string(), "sin clave".to_string()],
    ];
    let claves = vec![Some("A-1".to_string()), Some("A-1".to_string()), None];
    let (casadas, avisos, errores) = casar_filas(&casado, &filas, &claves, b',');
    assert_eq!(casadas.len(), 1);
    assert_eq!(casadas[0].clave, "A-1");
    let nombre = casadas[0].escalares.iter().find(|(n, _)| n == "Nombre").unwrap();
    assert!(matches!(&nombre.1, CeldaNorm::Texto(s) if s == "primera"));
    assert_eq!(avisos.len(), 1);
    assert_eq!(errores.len(), 1);
}

#[test]
fn llave_inexistente_es_error() {
    let campos = vec![campo_def("Clave", TipoCampo::Texto)];
    let enc = vec!["Clave".to_string()];
    match casar_columnas(&enc, &campos, "Codigo") {
        Err(MicError::Invalido(m)) => assert!(m.contains("Codigo")),
        _ => panic!("esperaba error de llave"),
    }
}

#[test]
fn decodifica_segun_marca_y_utf8() {
    let mut bytes = vec![0xEF, 0xBB, 0xBF];
    bytes.extend_from_slice("Clave,Nombre".as_bytes());
    assert_eq!(decodificar(&bytes), ("Clave,Nombre".to_string(), "utf-8-bom".to_string()));
    assert_eq!(decodificar("Café".as_bytes()), ("Café".to_string(), "utf-8".to_string()));
    assert_eq!(
        decodificar(b"Descripci\xF3n"),
        ("Descripción".to_string(), "windows-1252".to_string())
    );
}

#[test]
fn separador_por_encabezado() {
    assert_eq!(detectar_separador("Clave;Nombre;Precio\r\nA;B;1,5"), b';');
    assert_eq!(detectar_separador("Clave,Nombre\r\n"), b',');
    assert_eq!(detectar_separador("Clave\tNombre\n"), b'\t');
    assert_eq!(detectar_separador("\"a;b\",c\n"), b',');
}

#[test]
fn formatos_por_extension() {
    assert_eq!(formato_por_extension(Some("XLSX")), FormatoArchivo::Xlsx);
    assert_eq!(formato_por_extension(Some("ods")), FormatoArchivo::Xlsx);
    assert_eq!(formato_por_extension(Some("csv")), FormatoArchivo::Csv);
    assert_eq!(formato_por_extension(None), FormatoArchivo::Csv);
    assert_eq!(detectar_formato("libro.xlsx"), FormatoArchivo::Xlsx);
}

#[test]
fn politicas_de_importacion() {
    assert_eq!(Politica::desde("mantener").unwrap(), Politica::Mantener);
    assert_eq!(Politica::desde("rellenar_vacios").unwrap(), Politica::RellenarVacios);
    assert!(matches!(Politica::desde("otra"), Err(MicError::Invalido(_))));
}

#[test]
fn numeros_y_fechas_de_celdas() {
    let n: f64 = parsear_numero("$1,234.50", b',').unwrap().parse().unwrap();
    assert_eq!(n, 1234.5);
    assert_eq!(parsear_numero("abc", b','), None);
    assert_eq!(parsear_fecha("05/06/2026"), Some("2026-06-05".to_string()));
    assert_eq!(parsear_fecha("mañana"), None);
    assert_eq!(clave_textual("  A-1 "), Some("A-1".to_string()));
    assert_eq!(clave_textual("   "), None);
}

// --- lectura de CSV ----------------------------------------------------------

#[test]
fn csv_utf8_con_bom_se_lee_sin_bom_en_encabezado() {
    let mut bytes = vec![0xEF, 0xBB, 0xBF];
    bytes.extend_from_slice("Clave,Nombre\r\nA-1,Hola\r\n".as_bytes());
    let (enc, filas, encoding, _sep) = csv_de_bytes(&bytes).unwrap();
    assert_eq!(encoding, "utf-8-bom");
    assert_eq!(enc, vec!["Clave", "Nombre"]);
    assert_eq!(filas, vec![vec!["A-1".to_string(), "Hola".to_string()]]);
    assert_eq!(enc[0], "Clave");
}

#[test]
fn csv_windows_1252_acentos() {
    let mut bytes = b"Clave,Descripci\xF3n\r\nA-1,Jarr\xF3n\r\n".to_vec();
    bytes.push(b'\n');
    let (enc, filas, encoding, _sep) = csv_de_bytes(&bytes).unwrap();
    assert_eq!(encoding, "windows-1252");
    assert_eq!(enc, vec!["Clave", "Descripción"]);
    assert_eq!(filas[0][1], "Jarrón");
}

#[test]
fn csv_utf8_sin_bom() {
    let (enc, filas, encoding, _sep) = csv_de_bytes("Clave,Café\r\nA-1,café\r\n".as_bytes()).unwrap();
    assert_eq!(encoding, "utf-8");
    assert_eq!(enc, vec!["Clave", "Café"]);
    assert_eq!(filas[0][1], "café");
}

#[test]
fn csv_separador_punto_y_coma() {
    let (enc, filas, _, _) =
        csv_de_bytes("Clave;Nombre;Precio\r\nA-1;Hola;1.234,50\r\n".as_bytes()).unwrap();
    assert_eq!(enc, vec!["Clave", "Nombre", "Precio"]);
    assert_eq!(filas[0], vec!["A-1", "Hola", "1.234,50"]);
}

#[test]
fn round_trip_csv_mic() {
    let filas = vec![vec!["A-1".to_string(), "Jarrón chino".to_string()]];
    let bytes = csv_mic(&["Clave".to_string(), "Descripción".to_string()], &filas);
    let (enc, leidas, encoding, _sep) = csv_de_bytes(&bytes).unwrap();
    assert_eq!(encoding, "windows-1252");
    assert_eq!(enc, vec!["Clave", "Descripción"]);
    assert_eq!(leidas[0], vec!["A-1", "Jarrón chino"]);
}

#[test]
fn csv_vacio_y_filas_cortas() {
    assert!(matches!(csv_de_bytes(b""), Err(MicError::Invalido(_))));
    let (enc, filas, _, sep) = csv_de_bytes(b"A\tB\tC\nx\n").unwrap();
    assert_eq!(sep, b'\t');
    assert_eq!(enc.len(), 3);
    assert_eq!(filas[0], vec!["x", "", ""]);
}

#[test]
fn formato_por_nombre_de_archivo() {
    assert_eq!(detectar_formato("Libro.XLSX"), FormatoArchivo::Xlsx);
    assert_eq!(detectar_formato("hoja.ods"), FormatoArchivo::Xlsx);
    assert_eq!(detectar_formato("datos.csv"), FormatoArchivo::Csv);
    assert_eq!(detectar_formato("sin_extension"), FormatoArchivo::Csv);
    assert_eq!(detectar_formato(".xlsx"), FormatoArchivo::Csv);
    assert_eq!(detectar_formato("copia.xlsx.bak"), FormatoArchivo::Csv);
}
