use mic::migrador::csv_parser::{decodificar_cp1252, parsear, parsear_texto, TablaCsv};
use mic::migrador::diag::Diagnostico;
use mic::migrador::jet::{es_tabla_usuario, timestamp_a_iso, valor_a_string, ValorJet, MAX_DIAS_MARCA};
use mic::migrador::migrar::{
    cambia_und_esp, existe_tabla, mapear_op_comp, mapear_op_rel, nombre_tabla,
    normalizar_fecha_iso, tipo_legible,
};
use mic::migrador::paths::{nombre_archivo, normalizar_imagen};
use mic::migrador::type_map::{es_campo_sistema, jet_bool, jet_entero, mapear_campos, numero_normalizado};
use mic::model::{OpComp, OpRel, Tabla, TipoCampo};
use std::path::PathBuf;

fn dir() -> PathBuf {
    PathBuf::from("/algun/lugar/album")
}

fn parse_numero(s: &str) -> Option<f64> {
    numero_normalizado(s).and_then(|t| t.parse::<f64>().ok())
}

fn props_csv() -> TablaCsv {
    let texto = "\
Nombre,Tipo,longitud,decimales,totalizable,sInfo,TipoSal,Enprincipal,Modificable,Visible,OrdenVisible
_imagen_,0,255,0,0, ,0,1,1,0,0
Descripcion,0,50,0,0, ,0,1,1,1,1
Precio,2,0,2,1, ,0,1,1,1,2
Total,4,0,2,0,Precio*Cantidad,1,1,0,1,3
Tallas,5,0,0,0, ,0,1,1,1,4
Color,0,30,0,0, ,0,0,1,1,1
";
    parsear_texto(texto).unwrap()
}

// --- CSV de Access -------------------------------------------------------------

#[test]
fn decodifica_acentos_cp1252() {
    let bytes = b"Caf\xe9 Ni\xf1o \x80".to_vec();
    let texto = decodificar_cp1252(&bytes);
    assert_eq!(texto, "Café Niño €");
}

#[test]
fn parsea_cabecera_y_filas() {
    let bytes = b"Nombre,Precio\n\"Mart\xednez\",10.5\n\"L\xf3pez\",20\n".to_vec();
    let t = parsear(&bytes).unwrap();
    assert_eq!(t.cabecera, vec!["Nombre", "Precio"]);
    assert_eq!(t.len(), 2);
    assert_eq!(t.filas[0], vec!["Martínez", "10.5"]);
    assert_eq!(t.filas[1], vec!["López", "20"]);
}

#[test]
fn indice_case_insensitive() {
    let t = parsear_texto("Nombre,Tipo,Valor\na,b,c\n").unwrap();
    assert_eq!(t.indice("tipo"), Some(1));
    assert_eq!(t.indice("VALOR"), Some(2));
    assert_eq!(t.indice("inexistente"), None);
}

#[test]
fn comillas_internas_dobladas() {
    let t = parsear_texto("Texto,N\n\"Dice \"\"hola\"\"\",1\n").unwrap();
    assert_eq!(t.filas[0][0], "Dice \"hola\"");
}

#[test]
fn comas_dentro_de_comillas() {
    let t = parsear_texto("Lista,N\n\"a, b, c\",3\n").unwrap();
    assert_eq!(t.filas[0][0], "a, b, c");
    assert_eq!(t.filas[0][1], "3");
}

#[test]
fn filas_cortas_se_rellenan() {
    let t = parsear_texto("A,B,C\nx,y\n").unwrap();
    assert_eq!(t.filas[0], vec!["x", "y", ""]);
}

#[test]
fn csv_vacio() {
    let t = parsear_texto("").unwrap();
    assert!(t.cabecera.is_empty());
    assert!(t.is_empty());
}

// --- conversión de nombres, operadores y fechas --------------------------------

#[test]
fn cambia_und_esp_espacios() {
    assert_eq!(cambia_und_esp("Precio_Venta"), "Precio Venta");
}

#[test]
fn cambia_und_esp_literal() {
    assert_eq!(cambia_und_esp("Campo__especial"), "Campo_especial");
}

#[test]
fn cambia_und_esp_sistema() {
    assert_eq!(cambia_und_esp("_imagen_"), "_imagen_");
    assert_eq!(cambia_und_esp("_id_"), "_id_");
}

#[test]
fn mapear_op_comp_variantes() {
    assert_eq!(mapear_op_comp("="), Some(OpComp::Igual));
    assert_eq!(mapear_op_comp("<>"), Some(OpComp::Distinto));
    assert_eq!(mapear_op_comp(">="), Some(OpComp::MayorIgual));
    assert_eq!(mapear_op_comp("like"), Some(OpComp::Contiene));
    assert_eq!(mapear_op_comp("Is null"), None);
    assert_eq!(mapear_op_comp("Not like"), None);
}

#[test]
fn normaliza_fecha_variantes() {
    assert_eq!(normalizar_fecha_iso("2007-10-29"), Some("2007-10-29".into()));
    assert_eq!(normalizar_fecha_iso("29/10/2007"), Some("2007-10-29".into()));
    assert_eq!(normalizar_fecha_iso("2007-10-29 00:00:00"), Some("2007-10-29".into()));
    assert_eq!(normalizar_fecha_iso("basura"), None);
}

// --- rutas de imágenes ---------------------------------------------------------

#[test]
fn ruta_absoluta_windows_unidad_red() {
    assert_eq!(normalizar_imagen("G:\\MIC\\imagenes\\foto.jpg", &dir()), "imagenes/foto.jpg");
}

#[test]
fn ruta_relativa_punto() {
    assert_eq!(normalizar_imagen(".\\imagenes\\foto.jpg", &dir()), "imagenes/foto.jpg");
}

#[test]
fn ruta_con_subcarpeta() {
    assert_eq!(normalizar_imagen(".\\imagenes\\sub\\f.jpg", &dir()), "imagenes/sub/f.jpg");
}

#[test]
fn carpeta_imagenes_mayusculas() {
    assert_eq!(normalizar_imagen("C:\\Datos\\IMAGENES\\F.JPG", &dir()), "imagenes/F.JPG");
}

#[test]
fn solo_nombre_archivo() {
    assert_eq!(normalizar_imagen("foto.jpg", &dir()), "imagenes/foto.jpg");
}

#[test]
fn barras_normales_unix() {
    assert_eq!(normalizar_imagen("/home/u/imagenes/foto.png", &dir()), "imagenes/foto.png");
}

#[test]
fn vacio_o_espacios() {
    assert_eq!(normalizar_imagen("", &dir()), "");
    assert_eq!(normalizar_imagen("   ", &dir()), "");
}

#[test]
fn ruta_sin_carpeta_pero_con_directorios() {
    assert_eq!(normalizar_imagen("C:\\fotos\\productos\\art1.jpg", &dir()), "imagenes/art1.jpg");
}

#[test]
fn nombre_archivo_extrae_ultimo() {
    assert_eq!(nombre_archivo("imagenes/sub/f.jpg"), "f.jpg");
    assert_eq!(nombre_archivo("G:\\x\\y.png"), "y.png");
}

// --- mapeo de campos -------------------------------------------------------------

#[test]
fn ignora_campos_sistema() {
    let campos = mapear_campos(&props_csv());
    assert!(campos.iter().all(|c| !c.nombre_original.starts_with('_')));
    assert_eq!(campos.len(), 5);
}

#[test]
fn mapea_tipos_correctamente() {
    let campos = mapear_campos(&props_csv());
    let buscar = |n: &str| campos.iter().find(|c| c.nombre_original == n).unwrap();
    assert_eq!(buscar("Descripcion").def.tipo, TipoCampo::Texto);
    assert_eq!(buscar("Precio").def.tipo, TipoCampo::Moneda);
    assert_eq!(buscar("Total").def.tipo, TipoCampo::Calculado);
    assert_eq!(buscar("Tallas").def.tipo, TipoCampo::Multidato);
}

#[test]
fn calculado_lleva_formula() {
    let campos = mapear_campos(&props_csv());
    let total = campos.iter().find(|c| c.nombre_original == "Total").unwrap();
    assert_eq!(total.def.formula.as_deref(), Some("Precio*Cantidad"));
    assert!(!total.def.modificable);
}

#[test]
fn tabla_segun_enprincipal() {
    let campos = mapear_campos(&props_csv());
    let color = campos.iter().find(|c| c.nombre_original == "Color").unwrap();
    assert_eq!(color.def.tabla, Tabla::Variantes);
    let precio = campos.iter().find(|c| c.nombre_original == "Precio").unwrap();
    assert_eq!(precio.def.tabla, Tabla::Principal);
}

#[test]
fn decimales_y_totalizable() {
    let campos = mapear_campos(&props_csv());
    let precio = campos.iter().find(|c| c.nombre_original == "Precio").unwrap();
    assert_eq!(precio.def.decimales, 2);
    assert!(precio.def.totalizable);
}

#[test]
fn jet_bool_variantes() {
    assert!(jet_bool("1"));
    assert!(jet_bool("-1"));
    assert!(jet_bool("True"));
    assert!(!jet_bool("0"));
    assert!(!jet_bool(""));
}

#[test]
fn numero_coma_decimal() {
    assert_eq!(parse_numero("1234,50"), Some(1234.50));
    assert_eq!(parse_numero("1.234,50"), Some(1234.50));
    assert_eq!(parse_numero("10.5"), Some(10.5));
    assert_eq!(parse_numero("42"), Some(42.0));
    assert_eq!(parse_numero(""), None);
    assert_eq!(parse_numero("abc"), None);
}

// --- valores Jet -------------------------------------------------------------------

#[test]
fn valor_a_string_basicos() {
    assert_eq!(valor_a_string(&ValorJet::Nulo), "");
    assert_eq!(valor_a_string(&ValorJet::Binario), "");
    assert_eq!(valor_a_string(&ValorJet::Logico(true)), "1");
    assert_eq!(valor_a_string(&ValorJet::Logico(false)), "0");
    assert_eq!(valor_a_string(&ValorJet::Entero(7)), "7");
    assert_eq!(valor_a_string(&ValorJet::Entero(-3)), "-3");
    assert_eq!(valor_a_string(&ValorJet::Entero(12345)), "12345");
    assert_eq!(valor_a_string(&ValorJet::Entero(9_000_000_000)), "9000000000");
    assert_eq!(valor_a_string(&ValorJet::Texto("hola".into())), "hola");
    assert_eq!(valor_a_string(&ValorJet::Decimal("12345.6789".into())), "12345.6789");
    assert_eq!(valor_a_string(&ValorJet::Decimal("3.14".into())), "3.14");
    assert_eq!(valor_a_string(&ValorJet::Texto("{ABCD}".into())), "{ABCD}");
}

#[test]
fn timestamp_a_fecha_iso() {
    assert_eq!(timestamp_a_iso(0), "1899-12-30");
    assert_eq!(timestamp_a_iso(39384), "2007-10-29");
    // La parte de hora (39384.75) se descarta antes de llegar aquí.
    assert_eq!(timestamp_a_iso(39384.75f64.trunc() as i64), "2007-10-29");
}

#[test]
fn datetime_extended_recorta_fecha() {
    assert_eq!(
        valor_a_string(&ValorJet::FechaHora("2021-06-14 22:45:12.3456789".into())),
        "2021-06-14"
    );
}

// --- propias -----------------------------------------------------------------------

#[test]
fn timestamp_fuera_de_rango_es_vacio() {
    assert_eq!(timestamp_a_iso(200_000_000), "");
    assert_eq!(timestamp_a_iso(-200_000_000), "");
    assert_eq!(timestamp_a_iso(MAX_DIAS_MARCA), "");
    assert_eq!(timestamp_a_iso(-MAX_DIAS_MARCA), "");
    let lejana = timestamp_a_iso(95_010_000);
    assert!(lejana.starts_with('+'));
    assert!(lejana.len() > 10);
}

#[test]
fn diagnostico_recuerda_ultimo_paso() {
    let mut d = Diagnostico::new();
    assert_eq!(d.paso_actual(), "");
    d.paso("leyendo catálogo");
    d.paso("leyendo la tabla 'principal'");
    assert_eq!(d.paso_actual(), "leyendo la tabla 'principal'");
}

#[test]
fn operadores_relacionales_de_filtros() {
    assert_eq!(mapear_op_rel("And"), Some(OpRel::Y));
    assert_eq!(mapear_op_rel("or"), Some(OpRel::O));
    assert_eq!(mapear_op_rel("xor"), None);
}

#[test]
fn campos_de_sistema_y_enteros_jet() {
    assert!(es_campo_sistema("_imagen_"));
    assert!(!es_campo_sistema("Precio"));
    assert_eq!(jet_entero(" 12 "), 12);
    assert_eq!(jet_entero("-7"), -7);
    assert_eq!(jet_entero("x"), 0);
}

#[test]
fn busqueda_de_tablas_sin_caja() {
    let tablas = vec!["Principal".to_string(), "Propiedades".to_string()];
    assert!(existe_tabla(&tablas, "propiedades"));
    assert!(!existe_tabla(&tablas, "grupos"));
    assert_eq!(nombre_tabla(&tablas, "PRINCIPAL"), Some("Principal"));
    assert_eq!(tipo_legible(TipoCampo::Moneda).is_empty(), false);
}

#[test]
fn decodificar_sin_bom_es_byte_a_byte() {
    assert_eq!(decodificar_cp1252(b"\x93hola\x94"), "\u{201C}hola\u{201D}");
}

#[test]
fn normalizar_dos_veces_es_normalizar_una() {
    for ruta in [
        "G:\\MIC\\IMAGENES\\sub\\ foto.jpg ",
        "C:/datos/imagenes/a/imagenes/b.png",
        "foto.jpg",
        "  ",
        ".\\.\\",
        "x\\Imagenes",
    ] {
        let una = normalizar_imagen(ruta, &dir());
        assert_eq!(normalizar_imagen(&una, &dir()), una);
        assert!(una.is_empty() || una.starts_with("imagenes"));
        assert!(!una.contains('\\'));
    }
}

#[test]
fn operadores_en_mayusculas_y_con_blancos() {
    assert_eq!(mapear_op_comp(" LIKE "), Some(OpComp::Contiene));
    assert_eq!(mapear_op_comp("Mayor Que"), Some(OpComp::Mayor));
    assert_eq!(mapear_op_rel(" or "), Some(OpRel::O));
    assert_eq!(mapear_op_rel("and"), Some(OpRel::Y));
}

#[test]
fn tablas_de_usuario_del_catalogo() {
    let excluidas = 0x8000_0000u32 | 0x02;
    assert!(es_tabla_usuario(true, 0, excluidas, "Principal"));
    assert!(!es_tabla_usuario(false, 0, excluidas, "Principal"));
    assert!(!es_tabla_usuario(true, 0x02, excluidas, "Oculta"));
    assert!(!es_tabla_usuario(true, 0x8000_0000, excluidas, "Sistema"));
    assert!(!es_tabla_usuario(true, 0, excluidas, "MSysObjects"));
    assert!(es_tabla_usuario(true, 0x01, excluidas, "MSy"));
}
