use mic::album::{eliminar_plantilla, guardar_plantilla, promover_reciente, AlbumReciente, Plantilla, MAX_RECIENTES};
use mic::error::MicError;
use mic::exportar::{a_windows_1252, csv_mic, sanear_mic, texto_linea};
use mic::ligados::{campos_a_copiar, existe_en, validar_llave, ResultadoLiga};
use mic::model::{CampoDef, CampoNuevo, Tabla, TipoCampo};
use mic::protocolo::{content_type_por_extension, parsear_query, parsear_ruta, tipo_contenido};
use mic::thumbs::{dimensiones_destino, ThumbCache};
use std::path::PathBuf;

fn campo(nombre: &str, tabla: Tabla, tipo: TipoCampo) -> CampoDef {
    CampoDef {
        id: 0,
        nombre: nombre.to_string(),
        col_fisica: String::new(),
        tabla,
        tipo,
        decimales: 0,
        totalizable: false,
        formula: None,
        visible: true,
        modificable: true,
        orden_visible: 0,
        formato: None,
    }
}

fn nuevo(nombre: &str) -> CampoNuevo {
    CampoNuevo {
        nombre: nombre.to_string(),
        tabla: Tabla::Principal,
        tipo: TipoCampo::Texto,
        decimales: 0,
        totalizable: false,
        formula: None,
        visible: true,
        modificable: true,
        orden_visible: 0,
        formato: None,
    }
}

fn filas_csv(bytes: &[u8]) -> Vec<String> {
    let texto = encoding_rs::WINDOWS_1252.decode(bytes).0.into_owned();
    texto.trim_end().split("\r\n").map(|l| l.to_string()).collect()
}

// --- miniaturas ------------------------------------------------------------------

#[test]
fn dimensiones_mantienen_aspecto() {
    assert_eq!(dimensiones_destino(2000, 1500, 256), (256, 192));
    assert_eq!(dimensiones_destino(1500, 2000, 256), (192, 256));
    assert_eq!(dimensiones_destino(1000, 1000, 256), (256, 256));
    assert_eq!(dimensiones_destino(100, 80, 256), (100, 80));
}

#[test]
fn dimensiones_redondean_y_no_bajan_de_uno() {
    assert_eq!(dimensiones_destino(800, 600, 128), (128, 96));
    assert_eq!(dimensiones_destino(3, 1000, 100), (1, 100));
    assert_eq!(dimensiones_destino(1000, 3, 10), (10, 1));
    assert_eq!(dimensiones_destino(0, 0, 0), (0, 0));
}

#[test]
fn cache_ram_lee_lo_escrito_e_invalida_por_imagen() {
    let mut cache = ThumbCache::new(PathBuf::from("/album/.thumbs"));
    assert_eq!(cache.dir_thumbs(), &PathBuf::from("/album/.thumbs"));
    let a = "/album/imagenes/a.jpg".to_string();
    let b = "/album/imagenes/b.jpg".to_string();
    assert_eq!(cache.leer_ram(&a, 128), None);
    cache.escribir_ram(a.clone(), 128, PathBuf::from("/t/128/x.jpg"));
    cache.escribir_ram(a.clone(), 256, PathBuf::from("/t/256/x.jpg"));
    cache.escribir_ram(b.clone(), 128, PathBuf::from("/t/128/y.jpg"));
    cache.escribir_ram(a.clone(), 128, PathBuf::from("/t/128/z.jpg"));
    assert_eq!(cache.leer_ram(&a, 128), Some(PathBuf::from("/t/128/z.jpg")));
    cache.eliminar_ram(&a, 256);
    assert_eq!(cache.leer_ram(&a, 256), None);
    cache.invalidar(&a);
    assert_eq!(cache.leer_ram(&a, 128), None);
    assert_eq!(cache.leer_ram(&b, 128), Some(PathBuf::from("/t/128/y.jpg")));
}

// --- protocolo de miniaturas ----------------------------------------------------------

#[test]
fn ruta_del_protocolo() {
    assert_eq!(parsear_ruta("/3/principal/42"), Some((3, Tabla::Principal, 42)));
    assert_eq!(parsear_ruta("7/variantes/-1/"), Some((7, Tabla::Variantes, -1)));
    assert_eq!(parsear_ruta("/3/otra/42"), None);
    assert_eq!(parsear_ruta("/3/principal"), None);
    assert_eq!(parsear_ruta("/x/principal/1"), None);
    assert_eq!(parsear_ruta("/3//principal/1"), None);
}

#[test]
fn consulta_del_protocolo() {
    assert_eq!(parsear_query(""), (256, None));
    assert_eq!(parsear_query("size=128&v=17"), (128, Some("17".to_string())));
    assert_eq!(parsear_query("size=abc&v=a=b"), (256, Some("a=b".to_string())));
    assert_eq!(parsear_query("size=64&size=0"), (0, None));
    assert_eq!(parsear_query("size=99999999999"), (256, None));
}

#[test]
fn tipos_de_contenido() {
    assert_eq!(tipo_contenido(Some("JPG")), "image/jpeg");
    assert_eq!(tipo_contenido(Some("tif")), "image/tiff");
    assert_eq!(tipo_contenido(Some("txt")), "application/octet-stream");
    assert_eq!(tipo_contenido(None), "application/octet-stream");
    assert_eq!(content_type_por_extension("/album/imagenes/foto.PNG"), "image/png");
}

// --- recientes y plantillas ------------------------------------------------------------

#[test]
fn recientes_promueve_sin_duplicar_y_recorta() {
    let mut lista: Vec<AlbumReciente> = Vec::new();
    for i in 0..25 {
        lista = promover_reciente(&lista, format!("/a/{i}.micdb"), format!("A{i}"));
    }
    assert_eq!(lista.len(), MAX_RECIENTES);
    assert_eq!(lista[0].ruta, "/a/24.micdb");
    let lista = promover_reciente(&lista, "/a/10.micdb".to_string(), "otra".to_string());
    assert_eq!(lista.len(), MAX_RECIENTES);
    assert_eq!(lista[0].nombre, "otra");
    assert_eq!(lista.iter().filter(|r| r.ruta == "/a/10.micdb").count(), 1);
}

#[test]
fn plantillas_guardar_y_eliminar() {
    let mut lista: Vec<Plantilla> = Vec::new();
    guardar_plantilla(&mut lista, "Libros".to_string(), vec![nuevo("Autor")]);
    guardar_plantilla(&mut lista, "Discos".to_string(), vec![nuevo("Banda")]);
    guardar_plantilla(&mut lista, "Libros".to_string(), vec![nuevo("Autor"), nuevo("Año")]);
    assert_eq!(lista.len(), 2);
    assert_eq!(lista[0].nombre, "Libros");
    assert_eq!(lista[0].campos.len(), 2);
    let lista = eliminar_plantilla(lista, &"Libros".to_string());
    assert_eq!(lista.len(), 1);
    assert_eq!(lista[0].nombre, "Discos");
    let lista = eliminar_plantilla(lista, &"Inexistente".to_string());
    assert_eq!(lista.len(), 1);
}

// --- ligas ----------------------------------------------------------------------------------

#[test]
fn liga_copia_campos_comunes_salvo_llave_y_calculados() {
    let actual = vec![
        campo("Clave", Tabla::Principal, TipoCampo::Texto),
        campo("Precio", Tabla::Principal, TipoCampo::Moneda),
        campo("Total", Tabla::Principal, TipoCampo::Calculado),
        campo("Solo aquí", Tabla::Principal, TipoCampo::Texto),
        campo("Color", Tabla::Variantes, TipoCampo::Texto),
    ];
    let ligado = vec![
        campo("Clave", Tabla::Principal, TipoCampo::Texto),
        campo("Precio", Tabla::Principal, TipoCampo::Numerico),
        campo("Total", Tabla::Principal, TipoCampo::Numerico),
        campo("Color", Tabla::Principal, TipoCampo::Texto),
    ];
    let llave = "Clave".to_string();
    let copia = campos_a_copiar(&actual, &ligado, &llave);
    let nombres: Vec<&str> = copia.iter().map(|c| c.nombre.as_str()).collect();
    assert_eq!(nombres, vec!["Precio"]);
    assert!(existe_en(&ligado, &"Color".to_string()));
    assert!(!existe_en(&actual, &"Color".to_string()));
}

#[test]
fn liga_con_llave_ausente_es_invalida() {
    let actual = vec![campo("Clave", Tabla::Principal, TipoCampo::Texto)];
    let ligado = vec![campo("Codigo", Tabla::Principal, TipoCampo::Texto)];
    assert!(validar_llave(&actual, &actual, &"Clave".to_string()).is_ok());
    match validar_llave(&actual, &ligado, &"Clave".to_string()) {
        Err(MicError::Invalido(m)) => {
            assert_eq!(m, "el campo llave 'Clave' no existe en el álbum ligado")
        }
        _ => panic!("esperaba error"),
    }
    match validar_llave(&ligado, &actual, &"Clave".to_string()) {
        Err(MicError::Invalido(m)) => {
            assert_eq!(m, "el campo llave 'Clave' no existe en el álbum actual")
        }
        _ => panic!("esperaba error"),
    }
    let r = ResultadoLiga::default();
    assert_eq!((r.actualizados, r.creados, r.sin_coincidencia), (0, 0, 0));
}

// --- CSV csv-mic ------------------------------------------------------------------------

#[test]
fn csv_mic_sin_bom_cp1252_y_crlf() {
    let filas = vec![vec!["A-1".to_string(), "Jarrón chino".to_string()]];
    let bytes = csv_mic(&["Clave".to_string(), "Descripción".to_string()], &filas);
    assert_eq!(&bytes[..5], b"Clave");
    assert!(bytes.contains(&0xF3));
    assert!(!bytes.windows(2).any(|w| w == [0xC3, 0xB3]));
    assert_eq!(bytes.windows(2).filter(|w| *w == b"\r\n").count(), 2);
    assert!(bytes.windows(17).any(|w| w == b"Clave,Descripci\xF3n".as_slice()));
}

#[test]
fn csv_mic_sanea_separadores_dentro_de_valores() {
    let filas = vec![vec!["A-1".to_string(), "rojo, grande\tcon\nsalto".to_string()]];
    let bytes = csv_mic(&["Clave".to_string(), "Notas".to_string()], &filas);
    let lineas = filas_csv(&bytes);
    assert_eq!(lineas.len(), 2);
    assert_eq!(lineas[1].matches(',').count(), 1);
    assert_eq!(lineas[1], "A-1,rojo  grande con salto");
}

#[test]
fn csv_mic_caracter_sin_mapeo_va_como_interrogacion() {
    let filas = vec![vec!["A-1".to_string(), "nieve ☃ y €uro".to_string()]];
    let bytes = csv_mic(&["Clave".to_string(), "Notas".to_string()], &filas);
    let texto = encoding_rs::WINDOWS_1252.decode(&bytes).0.into_owned();
    assert!(texto.contains("nieve ? y €uro"));
}

#[test]
fn codificacion_y_saneo_de_celdas() {
    assert_eq!(sanear_mic("a,b\tc\r\nd"), "a b c  d");
    assert_eq!(a_windows_1252("ó€"), vec![0xF3, 0x80]);
    assert_eq!(a_windows_1252("☃x"), vec![b'?', b'x']);
    assert_eq!(texto_linea(&[]), "\r\n");
    assert_eq!(texto_linea(&["a".to_string(), "".to_string(), "c".to_string()]), "a,,c\r\n");
}

#[test]
fn miniatura_no_amplia_y_lado_mayor_exacto() {
    assert_eq!(dimensiones_destino(3000, 7, 100), (100, 1));
    assert_eq!(dimensiones_destino(7, 3000, 100), (1, 100));
    assert_eq!(dimensiones_destino(50, 40, 100), (50, 40));
    assert_eq!(dimensiones_destino(101, 101, 100), (100, 100));
}
