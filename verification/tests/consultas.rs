use mic::db::consultas::{campos_numericos, niveles_seleccionados, sql_conteo, sql_estadisticas, sql_ids, sql_pagina, sql_totalizar, ventana_mediana};
use mic::db::ddl::{conversion, sentencias_alta, sentencias_baja, sentencias_reindexado, Conversion};
use mic::db::grupos::{nivel_guardado, nivel_leido, niveles_de_grupo, sql_nivel};
use mic::db::codigos::{campo_por_nombre, op_comp_a_txt, resolver, tipo_a_byte, txt_a_op_comp};
use mic::db::query_builder::{consulta_fts, construir, valor_para_campo, ParamSql};
use mic::db::schema::col_fisica;
use mic::model::{
    CampoDef, CondicionFiltro, Direccion, FiltroRapido, Grupo, SeleccionGrupo, OpComp, OpRel, OrdenCampo, QueryReq,
    Tabla, TipoCampo,
};

fn campo(id: i64, nombre: &str, tabla: Tabla, tipo: TipoCampo) -> CampoDef {
    CampoDef {
        id,
        nombre: nombre.to_string(),
        col_fisica: format!("f_{id}"),
        tabla,
        tipo,
        decimales: 0,
        totalizable: false,
        formula: None,
        visible: true,
        modificable: true,
        orden_visible: 0,
        formato: None,
    }
}

fn campos() -> Vec<CampoDef> {
    vec![
        campo(1, "Nombre", Tabla::Principal, TipoCampo::Texto),
        campo(2, "Precio", Tabla::Principal, TipoCampo::Moneda),
        campo(3, "Etiquetas", Tabla::Principal, TipoCampo::Multidato),
        campo(4, "Color", Tabla::Variantes, TipoCampo::Texto),
    ]
}

fn req() -> QueryReq {
    QueryReq {
        tabla: Tabla::Principal,
        id_principal: None,
        grupo: None,
        filtro_rapido: None,
        condiciones: Vec::new(),
        busqueda: None,
        orden: Vec::new(),
        incluir_ocultos: false,
        offset: 0,
        limit: 100,
    }
}

fn cond(op_rel: Option<OpRel>, campo: &str, op_comp: OpComp, valor: &str) -> CondicionFiltro {
    CondicionFiltro { op_rel, campo: campo.to_string(), op_comp, valor: valor.to_string() }
}

fn textos(params: &[ParamSql]) -> Vec<String> {
    params
        .iter()
        .map(|p| match p {
            ParamSql::Entero(n) => format!("i{n}"),
            ParamSql::Real(t) => format!("r{t}"),
            ParamSql::Texto(t) => format!("t{t}"),
        })
        .collect()
}

#[test]
fn consulta_minima_excluye_ocultos_y_ordena_por_id() {
    let c = construir(&campos(), &req(), &[]);
    assert_eq!(c.where_sql, "principal._auxiliar_ = 0");
    assert_eq!(c.order_sql, "principal._id_ ASC");
    assert_eq!(c.join_sql, "");
    assert!(c.params.is_empty());
}

#[test]
fn condiciones_se_agrupan_de_izquierda_a_derecha() {
    let mut r = req();
    r.incluir_ocultos = true;
    r.condiciones = vec![
        cond(None, "Nombre", OpComp::Igual, "a"),
        cond(Some(OpRel::O), "Precio", OpComp::Mayor, "1,5"),
        cond(Some(OpRel::Y), "Desconocido", OpComp::Igual, "x"),
        cond(Some(OpRel::Y), "Nombre", OpComp::Contiene, "b"),
    ];
    let c = construir(&campos(), &r, &[]);
    assert_eq!(
        c.where_sql,
        "((principal.f_1 = ? OR principal.f_2 > ?) AND CAST(principal.f_1 AS TEXT) LIKE ?)"
    );
    assert_eq!(textos(&c.params), vec!["ta", "r1.5", "t%b%"]);
}

#[test]
fn multidato_filtra_por_exists_y_campo_de_otra_tabla_se_ignora() {
    let mut r = req();
    r.filtro_rapido = Some(FiltroRapido { campo: "Etiquetas".into(), valor: "rojo".into() });
    r.orden = vec![
        OrdenCampo { campo: "Color".into(), direccion: Direccion::Asc },
        OrdenCampo { campo: "Precio".into(), direccion: Direccion::Desc },
    ];
    let c = construir(&campos(), &r, &[]);
    assert_eq!(
        c.where_sql,
        "principal._auxiliar_ = 0 AND EXISTS (SELECT 1 FROM multidatos m WHERE m.reg_id = principal._id_ AND m.campo_id = ? AND m.principal = ? AND m.valor = ?)"
    );
    assert_eq!(textos(&c.params), vec!["i3", "i1", "trojo"]);
    assert_eq!(c.order_sql, "principal.f_2 DESC, principal._id_ ASC");
}

#[test]
fn variantes_de_un_principal_y_busqueda_solo_en_principal() {
    let mut r = req();
    r.tabla = Tabla::Variantes;
    r.id_principal = Some(9);
    r.busqueda = Some("jarrón".into());
    let c = construir(&campos(), &r, &[]);
    assert_eq!(c.where_sql, "variantes._auxiliar_ = 0 AND variantes._idprincipal_ = ?");
    assert_eq!(c.join_sql, "");
    assert_eq!(textos(&c.params), vec!["i9"]);

    let mut p = req();
    p.busqueda = Some("  jarrón \"chino\" ".into());
    let c = construir(&campos(), &p, &[]);
    assert_eq!(
        c.join_sql,
        " JOIN principal_fts AS fts ON fts.rowid = principal._id_ AND principal_fts MATCH ?"
    );
    assert_eq!(textos(&c.params), vec!["t\"jarrón\"* \"chino\"*"]);
}

#[test]
fn grupo_resuelto_da_igualdades() {
    let cs = campos();
    let niveles = vec![(&cs[0], "Libros".to_string()), (&cs[2], "rojo".to_string())];
    let mut r = req();
    r.incluir_ocultos = true;
    let c = construir(&cs, &r, &niveles);
    assert_eq!(
        c.where_sql,
        "principal.f_1 = ? AND EXISTS (SELECT 1 FROM multidatos m WHERE m.reg_id = principal._id_ AND m.campo_id = ? AND m.principal = ? AND m.valor = ?)"
    );
    assert_eq!(textos(&c.params), vec!["tLibros", "i3", "i1", "trojo"]);
}

#[test]
fn valores_numericos_y_fts() {
    let precio = campo(2, "Precio", Tabla::Principal, TipoCampo::Numerico);
    assert!(matches!(valor_para_campo(&precio, " 12,5 "), ParamSql::Real(t) if t == "12.5"));
    assert!(matches!(valor_para_campo(&precio, "doce"), ParamSql::Texto(t) if t == "doce"));
    assert_eq!(consulta_fts("a  b"), "\"a\"* \"b\"*");
    assert_eq!(consulta_fts("   "), "");
}

#[test]
fn codigos_de_tipo_y_operador() {
    assert_eq!(tipo_a_byte(TipoCampo::Multidato), 5);
    for op in [
        OpComp::Igual,
        OpComp::Distinto,
        OpComp::Mayor,
        OpComp::Menor,
        OpComp::MayorIgual,
        OpComp::MenorIgual,
        OpComp::Contiene,
        OpComp::Empieza,
    ] {
        assert_eq!(txt_a_op_comp(op_comp_a_txt(op)), op);
    }
    assert_eq!(col_fisica(17), "f_17");
    let cs = campos();
    assert_eq!(resolver(&cs, "Precio").map(|c| c.id), Some(2));
    assert!(resolver(&cs, "precio").is_none());
}

#[test]
fn niveles_y_consulta_de_un_grupo() {
    let cs = campos();
    let g = Grupo {
        id: 1,
        nombre: "G".into(),
        por: "Etiquetas".into(),
        luego1: Some("Inexistente".into()),
        luego2: Some("Nombre".into()),
    };
    let niveles = niveles_de_grupo(&cs, &g);
    assert_eq!(niveles.iter().map(|c| c.id).collect::<Vec<_>>(), vec![3, 1]);
    let (sql, binds) = sql_nivel(&niveles[0], &[]);
    assert_eq!(
        sql,
        "SELECT mg.valor AS v, COUNT(DISTINCT principal._id_) AS n FROM principal JOIN multidatos mg ON mg.reg_id = principal._id_ AND mg.campo_id = 3 AND mg.principal = 1 GROUP BY v ORDER BY v COLLATE NOCASE"
    );
    assert!(binds.is_empty());
    let (sql, binds) = sql_nivel(&niveles[1], &[(niveles[0].clone(), "rojo".into())]);
    assert_eq!(
        sql,
        "SELECT CAST(principal.f_1 AS TEXT) AS v, COUNT(DISTINCT principal._id_) AS n FROM principal WHERE EXISTS (SELECT 1 FROM multidatos mf WHERE mf.reg_id = principal._id_ AND mf.campo_id = 3 AND mf.principal = 1 AND mf.valor = ?) GROUP BY v ORDER BY v COLLATE NOCASE"
    );
    assert_eq!(binds, vec!["rojo"]);
}

#[test]
fn niveles_guardados_y_leidos() {
    assert_eq!(nivel_guardado(&None), "(Ninguno)");
    assert_eq!(nivel_guardado(&Some("Color".into())), "Color");
    assert_eq!(nivel_leido(Some("(Ninguno)".into())), None);
    assert_eq!(nivel_leido(Some("".into())), None);
    assert_eq!(nivel_leido(Some("Color".into())), Some("Color".to_string()));
    assert_eq!(nivel_leido(nivel_guardado(&Some("Talla".into())).into()), Some("Talla".to_string()));
}

#[test]
fn sentencias_de_estructura() {
    assert_eq!(
        sentencias_alta(Tabla::Principal, "f_7", TipoCampo::Moneda),
        vec![
            "ALTER TABLE principal ADD COLUMN f_7 REAL;",
            "CREATE INDEX IF NOT EXISTS ix_principal_f_7 ON principal (f_7);"
        ]
    );
    assert_eq!(
        sentencias_alta(Tabla::Variantes, "f_8", TipoCampo::Multidato),
        vec!["ALTER TABLE variantes ADD COLUMN f_8 INTEGER;"]
    );
    assert_eq!(
        sentencias_reindexado(Tabla::Principal, "f_7", TipoCampo::Texto),
        vec![
            "DROP INDEX IF EXISTS ix_principal_f_7;",
            "CREATE INDEX IF NOT EXISTS ix_principal_f_7 ON principal (f_7);"
        ]
    );
    assert_eq!(
        sentencias_baja(Tabla::Variantes, "f_8"),
        vec!["DROP INDEX IF EXISTS ix_variantes_f_8;", "ALTER TABLE variantes DROP COLUMN f_8;"]
    );
}

#[test]
fn conversiones_de_tipo() {
    let texto = campo(2, "Precio", Tabla::Principal, TipoCampo::Texto);
    match conversion(&texto, TipoCampo::Numerico) {
        Conversion::Escalar(s) => assert_eq!(
            s,
            "UPDATE principal SET f_2 = CAST(f_2 AS REAL) WHERE f_2 IS NOT NULL;"
        ),
        _ => panic!("esperaba conversión escalar"),
    }
    match conversion(&texto, TipoCampo::Fecha) {
        Conversion::Escalar(s) => assert_eq!(
            s,
            "UPDATE principal SET f_2 = CASE WHEN date(f_2) IS NOT NULL THEN substr(CAST(f_2 AS TEXT), 1, 10) ELSE NULL END WHERE f_2 IS NOT NULL;"
        ),
        _ => panic!("esperaba conversión escalar"),
    }
    match conversion(&texto, TipoCampo::Multidato) {
        Conversion::AMultidato { insertar, conteo } => {
            assert_eq!(
                insertar,
                "INSERT INTO multidatos (reg_id, principal, campo_id, valor) SELECT _id_, ?1, ?2, CAST(f_2 AS TEXT) FROM principal WHERE f_2 IS NOT NULL AND TRIM(CAST(f_2 AS TEXT)) <> '';"
            );
            assert_eq!(
                conteo,
                "UPDATE principal SET f_2 = CASE WHEN f_2 IS NOT NULL AND TRIM(CAST(f_2 AS TEXT)) <> '' THEN 1 ELSE 0 END;"
            );
        }
        _ => panic!("esperaba conversión a multidato"),
    }
    let multi = campo(4, "Tallas", Tabla::Variantes, TipoCampo::Multidato);
    match conversion(&multi, TipoCampo::Moneda) {
        Conversion::DesdeMultidato(s) => assert_eq!(
            s,
            "UPDATE variantes SET f_4 = ( SELECT CAST(m.valor AS REAL) FROM multidatos m WHERE m.reg_id = variantes._id_ AND m.campo_id = 4 AND m.principal = 0 ORDER BY m.rowid LIMIT 1 );"
        ),
        _ => panic!("esperaba conversión desde multidato"),
    }
}

#[test]
fn sentencias_de_lectura() {
    let mut cs = campos();
    cs[1].totalizable = true;
    let mut r = req();
    r.condiciones = vec![cond(None, "Nombre", OpComp::Igual, "a")];
    let c = construir(&cs, &r, &[]);
    assert_eq!(
        sql_conteo(Tabla::Principal, &c),
        "SELECT COUNT(*) FROM principal WHERE principal._auxiliar_ = 0 AND principal.f_1 = ?"
    );
    assert_eq!(
        sql_ids(Tabla::Principal, &c),
        "SELECT principal._id_ FROM principal WHERE principal._auxiliar_ = 0 AND principal.f_1 = ? ORDER BY principal._id_ ASC"
    );
    assert_eq!(
        sql_pagina(&cs, Tabla::Principal, &c),
        "SELECT principal._id_, principal._imagen_, principal._imagen_version_, principal._variantes_, principal._auxiliar_, principal.f_1, principal.f_2, (SELECT group_concat(m.valor, ' · ') FROM multidatos m WHERE m.reg_id = principal._id_ AND m.campo_id = 3 AND m.principal = 1) FROM principal WHERE principal._auxiliar_ = 0 AND principal.f_1 = ? ORDER BY principal._id_ ASC LIMIT ? OFFSET ?"
    );
    let (tot, sql) = sql_totalizar(&cs, Tabla::Principal, &c);
    assert_eq!(tot.iter().map(|x| x.id).collect::<Vec<_>>(), vec![2]);
    assert_eq!(
        sql,
        "SELECT COUNT(*), COALESCE(SUM(principal.f_2), 0) FROM principal WHERE principal._auxiliar_ = 0 AND principal.f_1 = ?"
    );
}

#[test]
fn variantes_leen_cero_como_marca_de_variantes() {
    let cs = campos();
    let mut r = req();
    r.tabla = Tabla::Variantes;
    r.incluir_ocultos = true;
    let c = construir(&cs, &r, &[]);
    assert_eq!(
        sql_pagina(&cs, Tabla::Variantes, &c),
        "SELECT variantes._id_, variantes._imagen_, variantes._imagen_version_, 0, variantes._auxiliar_, variantes.f_4 FROM variantes ORDER BY variantes._id_ ASC LIMIT ? OFFSET ?"
    );
}

#[test]
fn estadisticas_de_campos_numericos() {
    let cs = campos();
    let sel = vec!["Precio".to_string(), "Nombre".to_string(), "Nada".to_string(), "Color".to_string()];
    let num = campos_numericos(&cs, Tabla::Principal, &sel);
    assert_eq!(num.iter().map(|x| x.id).collect::<Vec<_>>(), vec![2]);
    assert_eq!(ventana_mediana(5), (1, 2));
    assert_eq!(ventana_mediana(4), (2, 1));
    assert_eq!(ventana_mediana(1), (1, 0));
    let mut r = req();
    r.incluir_ocultos = true;
    let c = construir(&cs, &r, &[]);
    let (agr, med, moda) = sql_estadisticas(Tabla::Principal, &c, &num[0], 2, 1);
    assert_eq!(
        agr,
        "SELECT COUNT(principal.f_2), COALESCE(SUM(principal.f_2), 0), AVG(principal.f_2), MIN(principal.f_2), MAX(principal.f_2) FROM principal"
    );
    assert_eq!(
        med,
        "SELECT AVG(v) FROM (SELECT principal.f_2 AS v FROM principal WHERE principal.f_2 IS NOT NULL ORDER BY principal.f_2 LIMIT 2 OFFSET 1)"
    );
    assert_eq!(
        moda,
        "SELECT principal.f_2, COUNT(*) AS c FROM principal WHERE principal.f_2 IS NOT NULL GROUP BY principal.f_2 ORDER BY c DESC, principal.f_2 ASC LIMIT 1"
    );
    let c2 = construir(&cs, &req(), &[]);
    let (_, med2, _) = sql_estadisticas(Tabla::Principal, &c2, &num[0], 1, 0);
    assert_eq!(
        med2,
        "SELECT AVG(v) FROM (SELECT principal.f_2 AS v FROM principal WHERE principal._auxiliar_ = 0 AND principal.f_2 IS NOT NULL ORDER BY principal.f_2 LIMIT 1 OFFSET 0)"
    );
}

#[test]
fn niveles_elegidos_del_grupo_activo() {
    let cs = campos();
    let g = Grupo {
        id: 1,
        nombre: "G".into(),
        por: "Nombre".into(),
        luego1: Some("Precio".into()),
        luego2: Some("Nada".into()),
    };
    let sel = SeleccionGrupo {
        grupo_id: 1,
        valores: vec![Some("Libro".into()), None, Some("x".into())],
    };
    let n = niveles_seleccionados(&cs, &g, &sel);
    assert_eq!(n.len(), 1);
    assert_eq!((n[0].0.id, n[0].1.as_str()), (1, "Libro"));
}

#[test]
fn valores_de_condiciones_van_como_parametros() {
    let cs = campos();
    let mut a = req();
    a.condiciones = vec![
        cond(None, "Nombre", OpComp::Contiene, "'; DROP TABLE principal; --"),
        cond(Some(OpRel::O), "Precio", OpComp::Mayor, "10"),
    ];
    let mut b = req();
    b.condiciones = vec![
        cond(None, "Nombre", OpComp::Contiene, "sello"),
        cond(Some(OpRel::O), "Precio", OpComp::Mayor, "99"),
    ];
    let ca = construir(&cs, &a, &[]);
    let cb = construir(&cs, &b, &[]);
    assert_eq!(ca.where_sql, cb.where_sql);
    assert!(!ca.where_sql.contains("DROP"));
    assert_eq!(ca.params.len(), cb.params.len());
    assert_ne!(textos(&ca.params), textos(&cb.params));
}

#[test]
fn parametro_de_busqueda_va_primero() {
    let cs = vec![campo(1, "Nombre", Tabla::Principal, TipoCampo::Texto)];
    let mut r = req();
    r.busqueda = Some("cafe".into());
    r.condiciones = vec![cond(None, "Nombre", OpComp::Igual, "Café Especial")];
    let c = construir(&cs, &r, &[]);
    assert!(c.join_sql.contains("MATCH ?"));
    assert_eq!(textos(&c.params), vec!["t\"cafe\"*".to_string(), "tCafé Especial".to_string()]);
}

#[test]
fn nivel_se_resuelve_en_la_tabla_principal() {
    let cs = vec![
        campo(1, "Color", Tabla::Variantes, TipoCampo::Texto),
        campo(2, "Color", Tabla::Principal, TipoCampo::Texto),
    ];
    assert_eq!(resolver(&cs, "Color").map(|c| c.id), Some(2));
    assert_eq!(campo_por_nombre(&cs, "Color").map(|c| c.id), Some(1));
    assert!(resolver(&cs[..1], "Color").is_none());
}

#[test]
fn valores_distintos_dan_la_misma_consulta() {
    let cs = campos();
    let mut a = req();
    a.busqueda = Some("té".into());
    a.condiciones = vec![cond(None, "Precio", OpComp::Mayor, "10"), cond(Some(OpRel::O), "Nombre", OpComp::Contiene, "x")];
    let mut b = req();
    b.busqueda = Some("'; DROP TABLE principal; --".into());
    b.condiciones = vec![cond(None, "Precio", OpComp::Mayor, "99,5"), cond(Some(OpRel::O), "Nombre", OpComp::Contiene, "') OR 1=1 --")];
    let ca = construir(&cs, &a, &[]);
    let cb = construir(&cs, &b, &[]);
    assert_eq!(ca.where_sql, cb.where_sql);
    assert_eq!(ca.order_sql, cb.order_sql);
    assert_eq!(ca.join_sql, cb.join_sql);
    assert_eq!(ca.params.len(), cb.params.len());
    assert!(!cb.where_sql.contains("DROP"));
}
