use mic::migrador::csv_parser::parsear_texto;
use mic::migrador::migrar::Contexto;
use mic::migrador::registros::{
    columnas_de_campos, columnas_sistema, convertir_valor_sql, preparar_registros, sql_insercion,
    ValorSql,
};
use mic::migrador::tablas::{categorias_de, filtros_de, grupos_de, multidatos_de};
use mic::model::{CampoDef, OpComp, OpRel, Tabla, TipoCampo};
use std::path::PathBuf;

fn campo(id: i64, nombre: &str, tabla: Tabla, tipo: TipoCampo) -> CampoDef {
    CampoDef {
        id,
        nombre: nombre.to_string(),
        col_fisica: format!("f_{id}"),
        tabla,
        tipo,
        decimales: 0,
        totalizable: false,
        formula: None,
        visible: true,
        modificable: true,
        orden_visible: 0,
        formato: None,
    }
}

fn contexto() -> Contexto {
    let campos = vec![
        campo(1, "Descripcion", Tabla::Principal, TipoCampo::Texto),
        campo(2, "Precio", Tabla::Principal, TipoCampo::Moneda),
        campo(3, "Tallas", Tabla::Principal, TipoCampo::Multidato),
        campo(4, "Alta", Tabla::Principal, TipoCampo::Fecha),
        campo(5, "Color", Tabla::Variantes, TipoCampo::Texto),
    ];
    let por_nombre = campos.iter().map(|c| (c.nombre.clone(), c.id)).collect();
    Contexto { campos, por_nombre }
}

fn texto(v: &ValorSql) -> String {
    match v {
        ValorSql::Nulo => "NULL".to_string(),
        ValorSql::Entero(n) => format!("i{n}"),
        ValorSql::Real(t) => format!("r{t}"),
        ValorSql::Texto(t) => format!("t{t}"),
    }
}

#[test]
fn valores_segun_tipo() {
    assert_eq!(texto(&convertir_valor_sql("  ", TipoCampo::Texto)), "NULL");
    assert_eq!(texto(&convertir_valor_sql(" hola ", TipoCampo::Texto)), "thola");
    assert_eq!(texto(&convertir_valor_sql("1.234,50", TipoCampo::Moneda)), "r1234.50");
    assert_eq!(texto(&convertir_valor_sql("abc", TipoCampo::Numerico)), "NULL");
    assert_eq!(texto(&convertir_valor_sql("29/10/2007", TipoCampo::Fecha)), "t2007-10-29");
    assert_eq!(texto(&convertir_valor_sql("basura", TipoCampo::Fecha)), "NULL");
}

#[test]
fn filas_de_principal_y_variantes() {
    let ctx = contexto();
    let datos = parsear_texto(
        "_id_,Descripcion,Precio,Tallas,_imagen_,_auxiliar_,_variantes_\n\
         7,Jarrón,\"12,5\",2,G:\\MIC\\imagenes\\j.jpg,0,-1\n\
         x,Plato,3,,,True,0\n",
    )
    .unwrap();
    let (ins, avisos) = preparar_registros(&ctx.campos, &datos, true, &PathBuf::from("/mdb"));
    assert!(avisos.is_empty());
    assert_eq!(ins.len(), 2);
    assert_eq!(
        ins[0].columnas,
        vec!["_id_", "_imagen_", "_auxiliar_", "_variantes_", "f_1", "f_2"]
    );
    let v0: Vec<String> = ins[0].valores.iter().map(texto).collect();
    assert_eq!(v0, vec!["i7", "timagenes/j.jpg", "i0", "i1", "tJarrón", "r12.5"]);
    assert_eq!(ins[1].columnas, vec!["_auxiliar_", "_variantes_", "f_1", "f_2"]);
    let v1: Vec<String> = ins[1].valores.iter().map(texto).collect();
    assert_eq!(v1, vec!["i1", "i0", "tPlato", "r3"]);

    let variantes = parsear_texto("_idprincipal_,Color\n7,Rojo\n,Azul\n").unwrap();
    let (ins, avisos) = preparar_registros(&ctx.campos, &variantes, false, &PathBuf::from("/mdb"));
    assert_eq!(ins.len(), 1);
    assert_eq!(ins[0].columnas, vec!["_auxiliar_", "_idprincipal_", "f_5"]);
    assert_eq!(avisos, vec!["variante en fila 2 sin _idprincipal_ válido; omitida"]);
}

#[test]
fn columnas_y_sentencia_de_insercion() {
    let ctx = contexto();
    let datos = parsear_texto("ID,precio,Otra,_IMAGEN_\n").unwrap();
    let sis = columnas_sistema(&datos);
    assert_eq!(sis.id, Some(0));
    assert_eq!(sis.imagen, Some(3));
    assert_eq!(sis.auxiliar, None);
    let idx = columnas_de_campos(&ctx.campos, true, &datos);
    assert_eq!(idx.len(), 1);
    assert_eq!((idx[0].0, idx[0].1.id), (1, 2));
    let cols = vec!["_id_".to_string(), "f_1".to_string(), "f_2".to_string()];
    assert_eq!(
        sql_insercion("principal", &cols),
        "INSERT INTO principal (_id_, f_1, f_2) VALUES (?1, ?2, ?3)"
    );
    assert_eq!(sql_insercion("variantes", &[]), "INSERT INTO variantes () VALUES ()");
}

#[test]
fn grupos_con_niveles_opcionales() {
    let datos = parsear_texto(
        "Nombre,Por,Luego1,Luego2\nPor precio,Precio,(Ninguno), Color \n,Precio,,\nSolo,Tallas,,\n",
    )
    .unwrap();
    let g = grupos_de(&datos).unwrap();
    assert_eq!(g.len(), 2);
    assert_eq!((g[0].nombre.as_str(), g[0].por.as_str()), ("Por precio", "Precio"));
    assert_eq!(g[0].luego1, None);
    assert_eq!(g[0].luego2, Some("Color".to_string()));
    assert_eq!(g[1].luego1, None);
    let mala = parsear_texto("Nombre,Otro\na,b\n").unwrap();
    assert_eq!(grupos_de(&mala).unwrap_err(), "tabla Grupos con columnas inesperadas; omitida");
}

#[test]
fn categorias_de_campos_conocidos() {
    let ctx = contexto();
    let datos = parsear_texto(
        "Campo_N,Principal,Valor,Default\nTallas,1,XL,0\nTallas,0,M,-1\nNada,1,x,0\nTallas,1,,0\n",
    )
    .unwrap();
    let c = categorias_de(&ctx, &datos).unwrap();
    assert_eq!(
        c,
        vec![(3, true, "XL".to_string(), false), (3, false, "M".to_string(), true)]
    );
    let mala = parsear_texto("Campo,Valor\n").unwrap();
    assert!(categorias_de(&ctx, &mala).is_err());
}

#[test]
fn filtros_agrupados_por_nombre() {
    let datos = parsear_texto(
        "Nombre,OpR,Campo,OpC,Valor\n\
         Caros,,Precio,>=,100\n\
         Baratos,,Precio,<,10\n\
         Caros,or,Descripcion,like,oro\n\
         Caros,xx,Descripcion,=,plata\n\
         Caros,Y,Alta,Is null,\n\
         ,,Precio,=,1\n",
    )
    .unwrap();
    let (filtros, avisos) = filtros_de(&datos).unwrap();
    assert_eq!(filtros.len(), 2);
    assert_eq!(filtros[0].0, "Caros");
    let caros = &filtros[0].1;
    assert_eq!(caros.len(), 3);
    assert_eq!((caros[0].op_rel, caros[0].op_comp), (None, OpComp::MayorIgual));
    assert_eq!((caros[1].op_rel, caros[1].op_comp), (Some(OpRel::O), OpComp::Contiene));
    assert_eq!((caros[2].op_rel, caros[2].op_comp), (Some(OpRel::Y), OpComp::Igual));
    assert_eq!(caros[2].valor, "plata");
    assert_eq!(filtros[1].0, "Baratos");
    assert_eq!(
        avisos,
        vec!["filtro 'Caros': operador 'Is null' no soportado; condición omitida"]
    );
}

#[test]
fn multidatos_agrupados_por_registro_y_campo() {
    let ctx = contexto();
    let datos = parsear_texto(
        "Id,Principal,Campo_n,Valor\n\
         1,1,Tallas,S\n\
         1,1,Tallas,M\n\
         2,0,Tallas,L\n\
         1,1,Color2,x\n\
         3,1,Color2,y\n\
         z,1,Tallas,XL\n\
         4,1,Tallas,\n",
    )
    .unwrap();
    let (grupos, avisos) = multidatos_de(&ctx, &datos).unwrap();
    assert_eq!(grupos.len(), 2);
    assert_eq!(grupos[0].0, (1, true, 3));
    assert_eq!(grupos[0].1, vec!["S", "M"]);
    assert_eq!(grupos[1].0, (2, false, 3));
    assert_eq!(avisos, vec!["multidato de campo desconocido 'Color2'; omitido"]);
}
