use mic::db::consultas::sql_auxiliar;
use mic::migrador::paths::dentro_de_imagenes;
use mic::db::schema::fecha_guardada;
use mic::album::{es_extension_imagen, nombre_con_sufijo, ruta_en_album};
use mic::db::fts::{multidatos_indexables, sql_texto_indexable, unir_indexable};
use mic::importar::aplicar::{
    contar_efectos, decidir_existente, efecto_de, escribe, esta_vacio_actual, planear_importacion,
    Destino, Efecto, EntradaEscalar, EntradaMultidato, ValorActual,
};
use mic::importar::archivo::clasificar_columnas;
use mic::importar::celdas::Politica;
use mic::ligados::planear_liga;
use mic::migrador::mdbtools::tablas_de_listado;
use mic::migrador::registros::sql_actualizacion;
use mic::model::{CampoDef, Tabla, TipoCampo};

fn campo(id: i64, nombre: &str, tabla: Tabla, tipo: TipoCampo) -> CampoDef {
    CampoDef {
        id,
        nombre: nombre.to_string(),
        col_fisica: format!("f_{id}"),
        tabla,
        tipo,
        decimales: 0,
        totalizable: false,
        formula: None,
        visible: true,
        modificable: true,
        orden_visible: 0,
        formato: None,
    }
}

fn llaves(v: &[Option<&str>]) -> Vec<Option<String>> {
    v.iter().map(|o| o.map(|s| s.to_string())).collect()
}

fn textos(v: &[&str]) -> Vec<String> {
    v.iter().map(|s| s.to_string()).collect()
}

#[test]
fn vacio_segun_tipo() {
    let cero = ValorActual { nulo: false, en_blanco: false, cero: true };
    let nulo = ValorActual { nulo: true, en_blanco: true, cero: true };
    let blanco = ValorActual { nulo: false, en_blanco: true, cero: true };
    // En un numérico el 0 es un valor legítimo: solo el nulo está vacío.
    assert!(!esta_vacio_actual(&cero, TipoCampo::Numerico));
    assert!(!esta_vacio_actual(&cero, TipoCampo::Moneda));
    assert!(esta_vacio_actual(&nulo, TipoCampo::Numerico));
    // En un multidato, conteo cero es vacío.
    assert!(esta_vacio_actual(&cero, TipoCampo::Multidato));
    // En texto y fecha, en blanco es vacío.
    assert!(esta_vacio_actual(&blanco, TipoCampo::Texto));
    assert!(esta_vacio_actual(&blanco, TipoCampo::Fecha));
    let lleno = ValorActual { nulo: false, en_blanco: false, cero: false };
    assert!(!esta_vacio_actual(&lleno, TipoCampo::Texto));
}

fn entradas() -> (Vec<EntradaEscalar>, Vec<EntradaMultidato>) {
    let esc = vec![
        // trae valor distinto, actual lleno
        EntradaEscalar { en_archivo: true, vacio_actual: false, igual_actual: false },
        // trae valor distinto, actual vacío
        EntradaEscalar { en_archivo: true, vacio_actual: true, igual_actual: false },
        // no trae valor
        EntradaEscalar { en_archivo: false, vacio_actual: true, igual_actual: false },
        // trae el mismo valor
        EntradaEscalar { en_archivo: true, vacio_actual: false, igual_actual: true },
    ];
    let multi = vec![
        EntradaMultidato { en_archivo: true, sin_actuales: false, iguales: false },
        EntradaMultidato { en_archivo: true, sin_actuales: true, iguales: false },
    ];
    (esc, multi)
}

#[test]
fn sustituir_escribe_lo_distinto() {
    let (esc, multi) = entradas();
    let d = decidir_existente(Politica::Sustituir, &esc, &multi);
    assert_eq!(d.escalares, vec![true, true, false, false]);
    assert_eq!(d.multidatos, vec![true, true]);
    assert!(d.actualiza);
}

#[test]
fn rellenar_vacios_solo_sobre_vacios() {
    let (esc, multi) = entradas();
    let d = decidir_existente(Politica::RellenarVacios, &esc, &multi);
    assert_eq!(d.escalares, vec![false, true, false, false]);
    assert_eq!(d.multidatos, vec![false, true]);
    assert!(d.actualiza);
}

#[test]
fn mantener_no_escribe_nada() {
    let (esc, multi) = entradas();
    let d = decidir_existente(Politica::Mantener, &esc, &multi);
    assert_eq!(d.escalares, vec![false, false, false, false]);
    assert_eq!(d.multidatos, vec![false, false]);
    assert!(!d.actualiza);
}

#[test]
fn valores_iguales_no_cuentan_como_cambio() {
    let esc = vec![EntradaEscalar { en_archivo: true, vacio_actual: false, igual_actual: true }];
    let d = decidir_existente(Politica::Sustituir, &esc, &[]);
    assert!(!d.actualiza);
}

#[test]
fn plan_importacion_primera_llave_gana_y_avisa_duplicados() {
    let album = llaves(&[Some("A"), None, Some("B"), Some("A"), Some("B"), Some("A")]);
    let filas = textos(&["B", "A", "Z"]);
    let p = planear_importacion(&album, &filas, true);
    assert_eq!(p.destinos, vec![Destino::Existente(2), Destino::Existente(0), Destino::Crear]);
    assert_eq!(
        p.avisos,
        vec![
            "la llave 'A' aparece varias veces en el álbum; solo se actualizó una".to_string(),
            "la llave 'B' aparece varias veces en el álbum; solo se actualizó una".to_string(),
        ]
    );
}

#[test]
fn plan_importacion_sin_crear_cuenta_no_encontradas() {
    let album = llaves(&[Some("1"), Some("2")]);
    let filas = textos(&["1", "3", "4"]);
    let p = planear_importacion(&album, &filas, false);
    assert_eq!(p.destinos, vec![Destino::Existente(0), Destino::SinCambio, Destino::SinCambio]);
    assert_eq!(
        p.avisos,
        vec!["2 llave(s) no encontrada(s) en el álbum (no se crearon)".to_string()]
    );
}

#[test]
fn plan_importacion_todo_encontrado_sin_avisos() {
    let album = llaves(&[Some("x"), Some("y")]);
    let filas = textos(&["y", "x"]);
    let p = planear_importacion(&album, &filas, false);
    assert_eq!(p.destinos, vec![Destino::Existente(1), Destino::Existente(0)]);
    assert!(p.avisos.is_empty());
}

#[test]
fn plan_liga_ultimo_del_ligado_gana() {
    let actual = llaves(&[Some("A"), Some("B"), None, Some("Q")]);
    let ligado = llaves(&[Some("A"), Some("C"), Some("A"), None, Some("C"), Some("D")]);
    let p = planear_liga(&actual, &ligado);
    assert_eq!(p.origen, vec![Some(2), None, None, None]);
    // C (última en 4) y D (5) no existen en el actual: una vez cada una.
    assert_eq!(p.faltantes, vec![4, 5]);
}

#[test]
fn plan_liga_cada_llave_sincroniza_o_falta() {
    let actual = llaves(&[Some("1"), Some("2"), Some("2")]);
    let ligado = llaves(&[Some("2"), Some("3"), Some("1")]);
    let p = planear_liga(&actual, &ligado);
    assert_eq!(p.origen, vec![Some(2), Some(0), Some(0)]);
    assert_eq!(p.faltantes, vec![1]);
}

#[test]
fn texto_indexable_sql_y_union() {
    let campos = vec![
        campo(1, "Nombre", Tabla::Principal, TipoCampo::Texto),
        campo(2, "Temas", Tabla::Principal, TipoCampo::Multidato),
        campo(3, "Precio", Tabla::Principal, TipoCampo::Numerico),
        campo(4, "Color", Tabla::Variantes, TipoCampo::Texto),
        campo(5, "Series", Tabla::Principal, TipoCampo::Multidato),
    ];
    assert_eq!(
        sql_texto_indexable(&campos),
        Some("SELECT CAST(f_1 AS TEXT), CAST(f_3 AS TEXT) FROM principal WHERE _id_ = ?1".to_string())
    );
    assert_eq!(multidatos_indexables(&campos), vec![2, 5]);
    let solo_multi = vec![campo(2, "Temas", Tabla::Principal, TipoCampo::Multidato)];
    assert_eq!(sql_texto_indexable(&solo_multi), None);
    let partes = vec![
        Some("Sello azul".to_string()),
        None,
        Some("   ".to_string()),
        Some("12.5".to_string()),
        Some("aves".to_string()),
    ];
    assert_eq!(unir_indexable(&partes), "Sello azul 12.5 aves");
    assert_eq!(unir_indexable(&[]), "");
}

#[test]
fn extensiones_de_imagen() {
    assert!(es_extension_imagen("jpg"));
    assert!(es_extension_imagen("JPEG"));
    assert!(es_extension_imagen("Tif"));
    assert!(!es_extension_imagen("txt"));
    assert!(!es_extension_imagen(""));
}

#[test]
fn listado_de_tablas_sin_lineas_vacias() {
    assert_eq!(
        tablas_de_listado("Principal\r\nVariantes\n\n  Multidatos  \n"),
        vec!["Principal".to_string(), "Variantes".to_string(), "Multidatos".to_string()]
    );
    assert!(tablas_de_listado("").is_empty());
    assert!(tablas_de_listado("\n \n").is_empty());
}

#[test]
fn sentencia_de_actualizacion() {
    let cols = vec!["f_1".to_string(), "f_2".to_string()];
    assert_eq!(
        sql_actualizacion("principal", &cols),
        "UPDATE principal SET f_1 = ?1, f_2 = ?2 WHERE _id_ = ?3"
    );
    assert_eq!(
        sql_actualizacion("variantes", &["f_9".to_string()]),
        "UPDATE variantes SET f_9 = ?1 WHERE _id_ = ?2"
    );
}

#[test]
fn clasificacion_de_columnas_del_archivo() {
    let campos = vec![
        campo(1, "Nombre", Tabla::Principal, TipoCampo::Texto),
        campo(2, "Precio", Tabla::Principal, TipoCampo::Numerico),
        campo(3, "Total", Tabla::Principal, TipoCampo::Calculado),
        campo(4, "Temas", Tabla::Principal, TipoCampo::Multidato),
        campo(5, "Color", Tabla::Variantes, TipoCampo::Texto),
    ];
    let enc = textos(&[" nombre ", "PRECIO", "Total", "Temas", "Color", "Otra"]);
    let r = clasificar_columnas(&enc, &campos);
    assert_eq!(r.reconocidas, textos(&[" nombre ", "PRECIO", "Total", "Temas"]));
    assert_eq!(r.no_reconocidas, textos(&["Color", "Otra"]));
    assert_eq!(r.llaves_sugeridas, textos(&[" nombre ", "PRECIO"]));
}

#[test]
fn fecha_se_guarda_recortada_a_diez_caracteres() {
    assert_eq!(fecha_guardada("  2024-03-05 10:22:00 "), Some("2024-03-05".to_string()));
    assert_eq!(fecha_guardada("2024-3-5"), Some("2024-3-5".to_string()));
    assert_eq!(fecha_guardada("   "), None);
}

#[test]
fn sentencia_de_ocultos() {
    assert_eq!(sql_auxiliar(Tabla::Principal, 3), "UPDATE principal SET _auxiliar_ = ?1 WHERE _id_ IN (?, ?, ?)");
    assert_eq!(sql_auxiliar(Tabla::Variantes, 1), "UPDATE variantes SET _auxiliar_ = ?1 WHERE _id_ IN (?)");
}

#[test]
fn ruta_dentro_de_la_carpeta_de_imagenes() {
    assert_eq!(dentro_de_imagenes("imagenes/foto.jpg"), "foto.jpg");
    assert_eq!(dentro_de_imagenes("imagenes/imagenes//sub/a.png"), "sub/a.png");
    assert_eq!(dentro_de_imagenes("/otra/b.png"), "otra/b.png");
    assert_eq!(dentro_de_imagenes("c.gif"), "c.gif");
}

#[test]
fn nombre_unico_de_imagen_copiada() {
    assert_eq!(nombre_con_sufijo("foto", "18f3a2", Some("jpg")), "foto_18f3a2.jpg");
    assert_eq!(nombre_con_sufijo("sin_ext", "a1", None), "sin_ext_a1");
    assert_eq!(ruta_en_album("foto_18f3a2.jpg"), "imagenes/foto_18f3a2.jpg");
}

#[test]
fn efectos_recuento_y_analisis_en_seco() {
    let efectos = vec![
        efecto_de(&Destino::Crear, false),
        efecto_de(&Destino::Existente(0), true),
        efecto_de(&Destino::Existente(1), false),
        efecto_de(&Destino::SinCambio, true),
        efecto_de(&Destino::Crear, true),
    ];
    assert_eq!(
        efectos,
        vec![Efecto::Crea, Efecto::Actualiza, Efecto::SinCambio, Efecto::SinCambio, Efecto::Crea]
    );
    assert_eq!(contar_efectos(&efectos), (2, 1, 2));
    assert!(escribe(Efecto::Crea, false));
    assert!(escribe(Efecto::Actualiza, false));
    assert!(!escribe(Efecto::SinCambio, false));
    assert!(!escribe(Efecto::Crea, true));
    assert!(!escribe(Efecto::Actualiza, true));
}
