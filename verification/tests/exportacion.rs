use mic::error::MicError;
use mic::exportar::{csv_excel, formato_exportacion, seleccion_exportar, texto_multidato, FormatoExport};
use mic::model::{CampoDef, Tabla, TipoCampo};

fn campo(id: i64, nombre: &str) -> CampoDef {
    CampoDef {
        id,
        nombre: nombre.to_string(),
        col_fisica: format!("f_{id}"),
        tabla: Tabla::Principal,
        tipo: TipoCampo::Texto,
        decimales: 0,
        totalizable: false,
        formula: None,
        visible: true,
        modificable: true,
        orden_visible: 0,
        formato: None,
    }
}

fn textos(v: &[&str]) -> Vec<String> {
    v.iter().map(|s| s.to_string()).collect()
}

#[test]
fn formatos_de_exportacion() {
    assert_eq!(formato_exportacion("csv"), Ok(FormatoExport::Csv));
    assert_eq!(formato_exportacion("xlsx"), Ok(FormatoExport::Xlsx));
    assert_eq!(formato_exportacion("csv-mic"), Ok(FormatoExport::CsvMic));
    assert_eq!(
        formato_exportacion("pdf"),
        Err(MicError::Invalido("formato de exportación no soportado: 'pdf'".to_string()))
    );
}

#[test]
fn seleccion_en_el_orden_pedido() {
    let campos = vec![campo(1, "Nombre"), campo(2, "Precio"), campo(3, "País")];
    let sel = seleccion_exportar(&textos(&["País", "Nada", "Nombre"]), &campos).unwrap();
    let nombres: Vec<&str> = sel.iter().map(|c| c.nombre.as_str()).collect();
    assert_eq!(nombres, vec!["País", "Nombre"]);
    assert_eq!(sel[0].id, 3);
}

#[test]
fn seleccion_vacia_o_desconocida_es_error() {
    let campos = vec![campo(1, "Nombre")];
    assert_eq!(
        seleccion_exportar(&[], &campos).unwrap_err(),
        MicError::Invalido("no hay campos seleccionados para exportar".to_string())
    );
    assert_eq!(
        seleccion_exportar(&textos(&["Otro"]), &campos).unwrap_err(),
        MicError::Invalido("ninguno de los campos indicados existe en el álbum".to_string())
    );
}

#[test]
fn multidato_unido_con_barras() {
    assert_eq!(texto_multidato(&textos(&["aves", "flores"])), "aves | flores");
    assert_eq!(texto_multidato(&textos(&["solo"])), "solo");
    assert_eq!(texto_multidato(&Vec::new()), "");
}

#[test]
fn csv_para_excel_con_bom_y_comillas() {
    let enc = textos(&["Nombre", "Nota"]);
    let filas = vec![textos(&["Sello", "azul, rojo"]), textos(&["Moneda", "dice \"hola\""])];
    let bytes = csv_excel(&enc, &filas).unwrap();
    assert_eq!(&bytes[..3], &[0xEF, 0xBB, 0xBF]);
    let texto = String::from_utf8(bytes[3..].to_vec()).unwrap();
    assert_eq!(texto, "Nombre,Nota\nSello,\"azul, rojo\"\nMoneda,\"dice \"\"hola\"\"\"\n");
}

#[test]
fn csv_para_excel_rechaza_filas_de_otra_longitud() {
    let enc = textos(&["Nombre", "Nota"]);
    let filas = vec![textos(&["Sello", "azul"]), textos(&["Moneda"])];
    assert!(csv_excel(&enc, &filas).is_err());
    assert!(csv_excel(&enc, &Vec::new()).is_ok());
}
