use mic::migrador::csv_parser::decodificar_cp1252;
use mic::migrador::plantilla::{campos_de_eventos, parse_xms_texto, EventoXml};
use mic::model::{Tabla, TipoCampo};

#[test]
fn parse_xms_basico() {
    let xml = r#"<?xml version="1.0" encoding="iso-8859-1"?>
<mic Version="2.0" Plantilla="normal">
  <Registro>
    <_imagen_ Tipo="0" Longitud="255"/>
    <Descripcion Tipo="0" Longitud="50"/>
    <Precio Tipo="2" Longitud="0" Decimales="2" Totalizable="True"/>
    <Total Tipo="4" Longitud="0" Decimales="2" Totalizable="False" Formula="Precio*Cantidad" TipoSalida="1"/>
    <Tallas Tipo="5"/>
  </Registro>
</mic>"#;
    let campos = parse_xms_texto(xml).unwrap();
    assert_eq!(campos.len(), 4);
    assert_eq!(campos[0].nombre, "Descripcion");
    assert_eq!(campos[0].tipo, TipoCampo::Texto);
    assert_eq!(campos[1].nombre, "Precio");
    assert_eq!(campos[1].tipo, TipoCampo::Moneda);
    assert_eq!(campos[1].decimales, 2);
    assert!(campos[1].totalizable);
    assert_eq!(campos[2].nombre, "Total");
    assert_eq!(campos[2].tipo, TipoCampo::Calculado);
    assert_eq!(campos[2].formula.as_deref(), Some("Precio*Cantidad"));
    assert_eq!(campos[3].tipo, TipoCampo::Multidato);
}

#[test]
fn parse_xms_nombre_con_espacio() {
    let xml = r#"<mic Version="2.0" Plantilla="x">
  <Registro>
    <Precio_Venta Tipo="2" Decimales="2"/>
  </Registro>
</mic>"#;
    let campos = parse_xms_texto(xml).unwrap();
    assert_eq!(campos.len(), 1);
    assert_eq!(campos[0].nombre, "Precio Venta");
}

#[test]
fn parse_xms_variantes() {
    let xml = r#"<mic Version="2.0" Plantilla="x">
  <Registro>
    <Modelo Tipo="0"/>
    <_variante_>
      <Registro>
        <Color Tipo="0"/>
        <Talla Tipo="0"/>
      </Registro>
    </_variante_>
  </Registro>
</mic>"#;
    let campos = parse_xms_texto(xml).unwrap();
    assert_eq!(campos.len(), 3);
    let modelo = campos.iter().find(|c| c.nombre == "Modelo").unwrap();
    assert_eq!(modelo.tabla, Tabla::Principal);
    let color = campos.iter().find(|c| c.nombre == "Color").unwrap();
    assert_eq!(color.tabla, Tabla::Variantes);
    let talla = campos.iter().find(|c| c.nombre == "Talla").unwrap();
    assert_eq!(talla.tabla, Tabla::Variantes);
}

#[test]
fn parse_xms_desde_archivo_cp1252() {
    let mut bytes: Vec<u8> = Vec::new();
    bytes.extend_from_slice(
        b"<?xml version=\"1.0\" encoding=\"iso-8859-1\"?>\n<mic Version=\"2.0\" Plantilla=\"normal\">\n  <Registro>\n",
    );
    bytes.extend_from_slice(b"    <Descripci\xf3n Tipo=\"0\"/>\n");
    bytes.extend_from_slice(b"    <A\xf1o Tipo=\"1\"/>\n");
    bytes.extend_from_slice(
        b"    <Precio Tipo=\"2\" Decimales=\"2\" Totalizable=\"True\"/>\n  </Registro>\n</mic>\n",
    );
    let campos = parse_xms_texto(&decodificar_cp1252(&bytes)).expect("parsear xms");
    assert_eq!(campos.len(), 3);
    assert_eq!(campos[0].nombre, "Descripción");
    assert_eq!(campos[0].tipo, TipoCampo::Texto);
    assert_eq!(campos[0].tabla, Tabla::Principal);
    assert_eq!(campos[1].nombre, "Año");
    assert_eq!(campos[1].tipo, TipoCampo::Numerico);
    assert_eq!(campos[2].nombre, "Precio");
    assert_eq!(campos[2].tipo, TipoCampo::Moneda);
    assert_eq!(campos[2].decimales, 2);
    assert!(campos[2].totalizable);
}

#[test]
fn xml_mal_formado_es_error_de_migracion() {
    let r = parse_xms_texto("<mic><Registro><Campo Tipo=\"0\"></mic>");
    assert!(matches!(r, Err(mic::error::MicError::Migracion(_))));
}

#[test]
fn eventos_fuera_de_registro_y_atributos_repetidos() {
    let ev = vec![
        EventoXml::Abre("mic".into(), vec![]),
        EventoXml::Abre("Suelto".into(), vec![]),
        EventoXml::Abre("Registro".into(), vec![]),
        EventoXml::Abre(
            "Total".into(),
            vec![
                ("Tipo".into(), " 4 ".into()),
                ("Formula".into(), " A+B ".into()),
                ("Formula".into(), "   ".into()),
                ("Decimales".into(), "300".into()),
            ],
        ),
        EventoXml::Abre("Raro".into(), vec![("Tipo".into(), "9".into())]),
        EventoXml::Abre("_variante_".into(), vec![]),
        EventoXml::Abre("Color".into(), vec![]),
        EventoXml::Cierra("_variante_".into()),
        EventoXml::Abre("Fin".into(), vec![("Formula".into(), "X".into())]),
    ];
    let c = campos_de_eventos(&ev);
    assert_eq!(c.iter().map(|x| x.nombre.as_str()).collect::<Vec<_>>(), vec!["Total", "Raro", "Color", "Fin"]);
    assert_eq!(c[0].tipo, TipoCampo::Calculado);
    assert_eq!(c[0].formula.as_deref(), Some("A+B"));
    assert_eq!(c[0].decimales, 0);
    assert_eq!(c[1].tipo, TipoCampo::Texto);
    assert_eq!(c[2].tabla, Tabla::Variantes);
    assert_eq!(c[3].tabla, Tabla::Principal);
    assert_eq!(c[3].formula, None);
    assert_eq!(c.iter().map(|x| x.orden_visible).collect::<Vec<_>>(), vec![0, 1, 2, 3]);
}
