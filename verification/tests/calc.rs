use mic::calc::expand::{compilar_todo, compilar_una, indexar_calculados, orden_topologico};
use mic::calc::functions::{
    buscar_funcion, dias_a_fecha, fecha_a_dias, fecha_iso_con_formato, formato_iso,
    interpretar_fecha, Fecha, Funcion,
};
use mic::calc::lexer::{normaliza_nombre, tokenizar, TipoToken};
use mic::calc::sintaxis::{compilar, Ast, OpBinario, OpUnario};
use mic::error::MicError;
use mic::model::{CampoDef, Tabla, TipoCampo};

fn tipos(formula: &str) -> Vec<(String, TipoToken)> {
    tokenizar(formula)
        .unwrap()
        .into_iter()
        .map(|t| (t.texto, t.tipo))
        .collect()
}

fn calc(id: i64, nombre: &str, formula: &str) -> CampoDef {
    CampoDef {
        id,
        nombre: nombre.to_string(),
        col_fisica: format!("f_{id}"),
        tabla: Tabla::Principal,
        tipo: TipoCampo::Calculado,
        decimales: 2,
        totalizable: false,
        formula: Some(formula.to_string()),
        visible: true,
        modificable: false,
        orden_visible: id as i32,
        formato: None,
    }
}

fn dato(id: i64, nombre: &str) -> CampoDef {
    CampoDef {
        id,
        nombre: nombre.to_string(),
        col_fisica: format!("f_{id}"),
        tabla: Tabla::Principal,
        tipo: TipoCampo::Numerico,
        decimales: 2,
        totalizable: true,
        formula: None,
        visible: true,
        modificable: true,
        orden_visible: id as i32,
        formato: None,
    }
}

/// Evaluación numérica de un árbol sobre valores por nombre de campo (un
/// campo ausente vale 0, como en el motor de la aplicación).
fn evaluar(a: &Ast, valores: &[(&str, f64)]) -> f64 {
    match a {
        Ast::Numero(t) => t.parse::<f64>().unwrap(),
        Ast::Campo(n) => valores
            .iter()
            .find(|(k, _)| *k == n.as_str() || normaliza_nombre(k) == *n)
            .map(|(_, v)| *v)
            .unwrap_or(0.0),
        Ast::Unario { op, arg } => match op {
            OpUnario::Negacion => -evaluar(arg, valores),
            OpUnario::Identidad => evaluar(arg, valores),
        },
        Ast::Binario { op, izq, der } => {
            let a = evaluar(izq, valores);
            let b = evaluar(der, valores);
            match op {
                OpBinario::Suma => a + b,
                OpBinario::Resta => a - b,
                OpBinario::Multiplicacion => a * b,
                OpBinario::Division => a / b,
            }
        }
        Ast::Llamada { .. } => panic!("sin fechas en estas pruebas"),
    }
}

fn ast_de<'a>(lista: &'a [(String, Ast)], nombre: &str) -> &'a Ast {
    &lista.iter().find(|(n, _)| n == nombre).unwrap().1
}

fn fecha(anio: i32, mes: u32, dia: u32) -> Fecha {
    Fecha { anio, mes, dia }
}

// --- lexer -------------------------------------------------------------------

#[test]
fn nombre_con_guion_bajo_es_un_solo_token() {
    let t = tipos("Precio_Venta");
    assert_eq!(t, vec![("Precio_Venta".into(), TipoToken::Nombre)]);
}

#[test]
fn aritmetica_simple() {
    let t = tipos("A+B*2");
    assert_eq!(
        t,
        vec![
            ("A".into(), TipoToken::Nombre),
            ("+".into(), TipoToken::Operador),
            ("B".into(), TipoToken::Nombre),
            ("*".into(), TipoToken::Operador),
            ("2".into(), TipoToken::Numero),
        ]
    );
}

#[test]
fn numero_decimal() {
    let t = tipos("3.14+1");
    assert_eq!(
        t,
        vec![
            ("3.14".into(), TipoToken::Numero),
            ("+".into(), TipoToken::Operador),
            ("1".into(), TipoToken::Numero),
        ]
    );
}

#[test]
fn funcion_fecha_se_descompone() {
    let t = tipos("@FECHA(Vencimiento)");
    assert_eq!(
        t,
        vec![
            ("@".into(), TipoToken::IniciaFuncion),
            ("FECHA".into(), TipoToken::Nombre),
            ("(".into(), TipoToken::Operador),
            ("Vencimiento".into(), TipoToken::Nombre),
            (")".into(), TipoToken::Operador),
        ]
    );
}

#[test]
fn parentesis_y_espacios() {
    let t = tipos(" ( A + B ) ");
    assert_eq!(
        t,
        vec![
            ("(".into(), TipoToken::Operador),
            ("A".into(), TipoToken::Nombre),
            ("+".into(), TipoToken::Operador),
            ("B".into(), TipoToken::Nombre),
            (")".into(), TipoToken::Operador),
        ]
    );
}

#[test]
fn numero_pegado_a_letra_es_invalido() {
    assert!(tokenizar("12abc").is_err());
}

#[test]
fn normaliza_espacios_a_guion_bajo() {
    assert_eq!(normaliza_nombre("Precio Venta"), "Precio_Venta");
    assert_eq!(normaliza_nombre("Sin_Espacios"), "Sin_Espacios");
}

// --- funciones y fechas ------------------------------------------------------

#[test]
fn epoch_es_cero_dias() {
    assert_eq!(fecha_a_dias(fecha(1900, 1, 1)), 0);
}

#[test]
fn dias_redondea_ida_y_vuelta() {
    let d = fecha(2007, 11, 15);
    let n = fecha_a_dias(d);
    assert_eq!(dias_a_fecha(n), d);
}

#[test]
fn diferencia_de_dias_entre_fechas() {
    let a = interpretar_fecha("2007-11-15").unwrap();
    let b = interpretar_fecha("2007-11-10").unwrap();
    assert_eq!(fecha_a_dias(a) - fecha_a_dias(b), 5);
}

#[test]
fn interpreta_varios_formatos() {
    let iso = interpretar_fecha("2020-02-29").unwrap();
    assert_eq!(iso, fecha(2020, 2, 29));
    let dmy = interpretar_fecha("29/02/2020").unwrap();
    assert_eq!(dmy, iso);
}

#[test]
fn texto_no_fecha_devuelve_none() {
    assert!(interpretar_fecha("hola").is_none());
    assert!(interpretar_fecha("").is_none());
}

#[test]
fn fecha_es_funcion_conocida_insensible_a_caja() {
    assert_eq!(buscar_funcion("FECHA"), Some(Funcion::Fecha));
    assert_eq!(buscar_funcion("fecha"), Some(Funcion::Fecha));
    assert_eq!(buscar_funcion("SUMA"), None);
}

// --- expansión y orden de recálculo -------------------------------------------

#[test]
fn formula_simple_compila_y_evalua() {
    let campos = vec![
        dato(1, "Cantidad"),
        dato(2, "Precio"),
        calc(3, "Total", "Cantidad*Precio"),
    ];
    let (asts, _) = compilar_todo(&campos).unwrap();
    let v = [("Cantidad", 3.0), ("Precio", 10.0)];
    assert_eq!(evaluar(ast_de(&asts, "Total"), &v), 30.0);
}

#[test]
fn anidacion_a_usa_b_usa_c() {
    let campos = vec![
        dato(1, "Base"),
        calc(2, "C", "Base*2"),
        calc(3, "B", "C+1"),
        calc(4, "A", "B*10"),
    ];
    let (asts, orden) = compilar_todo(&campos).unwrap();
    let v = [("Base", 5.0)];
    assert_eq!(evaluar(ast_de(&asts, "C"), &v), 10.0);
    assert_eq!(evaluar(ast_de(&asts, "B"), &v), 11.0);
    assert_eq!(evaluar(ast_de(&asts, "A"), &v), 110.0);
    let pos = |n: &str| orden.iter().position(|x| x == n).unwrap();
    assert!(pos("C") < pos("B"));
    assert!(pos("B") < pos("A"));
}

#[test]
fn precedencia_se_preserva_al_expandir() {
    let campos = vec![dato(1, "X"), calc(2, "B", "X+1"), calc(3, "A", "B*2")];
    let (asts, _) = compilar_todo(&campos).unwrap();
    let v = [("X", 3.0)];
    assert_eq!(evaluar(ast_de(&asts, "A"), &v), 8.0);
}

#[test]
fn ciclo_directo_da_error() {
    let campos = vec![calc(1, "A", "B+1"), calc(2, "B", "A+1")];
    let r = compilar_todo(&campos);
    assert!(matches!(r, Err(MicError::CicloCalculo(_))));
}

#[test]
fn ciclo_indirecto_da_error() {
    let campos = vec![calc(1, "A", "B+1"), calc(2, "B", "C+1"), calc(3, "C", "A+1")];
    let r = compilar_todo(&campos);
    assert!(matches!(r, Err(MicError::CicloCalculo(_))));
}

#[test]
fn campo_con_espacios_en_formula() {
    let campos = vec![
        dato(1, "Precio Venta"),
        dato(2, "Unidades"),
        calc(3, "Importe", "Precio_Venta*Unidades"),
    ];
    let (asts, _) = compilar_todo(&campos).unwrap();
    let v = [("Precio Venta", 12.5), ("Unidades", 4.0)];
    assert_eq!(evaluar(ast_de(&asts, "Importe"), &v), 50.0);
}

#[test]
fn compilar_una_expande_referencias() {
    let campos = vec![dato(1, "X"), calc(2, "B", "X+1")];
    let ast = compilar_una(&campos, "B*3").unwrap();
    let v = [("X", 2.0)];
    assert_eq!(evaluar(&ast, &v), 9.0);
}

// --- propias -----------------------------------------------------------------

#[test]
fn compilar_respeta_precedencia_y_asociatividad() {
    let a = compilar("2+3*4").unwrap();
    assert_eq!(evaluar(&a, &[]), 14.0);
    let b = compilar("(2+3)*4").unwrap();
    assert_eq!(evaluar(&b, &[]), 20.0);
    let c = compilar("10-4-3").unwrap();
    assert_eq!(evaluar(&c, &[]), 3.0);
    let d = compilar("-A").unwrap();
    assert_eq!(
        d,
        Ast::Unario { op: OpUnario::Negacion, arg: Box::new(Ast::Campo("A".into())) }
    );
}

#[test]
fn compilar_rechaza_expresiones_incompletas() {
    assert!(compilar("2+").is_err());
    assert!(compilar("(A").is_err());
    assert!(compilar("").is_err());
}

#[test]
fn compilar_reconoce_llamada_a_fecha() {
    let a = compilar("@FECHA(Vence)+1").unwrap();
    match a {
        Ast::Binario { op: OpBinario::Suma, izq, .. } => {
            assert_eq!(
                *izq,
                Ast::Llamada { funcion: Funcion::Fecha, arg: Box::new(Ast::Campo("Vence".into())) }
            );
        }
        otro => panic!("árbol inesperado: {otro:?}"),
    }
}

#[test]
fn orden_topologico_pone_dependencias_antes() {
    let campos = vec![
        calc(1, "Tres", "Dos+1"),
        calc(2, "Dos", "Uno+1"),
        calc(3, "Uno", "5"),
    ];
    let ix = indexar_calculados(&campos);
    let orden = orden_topologico(&campos, &ix).unwrap();
    let pos = |n: &str| orden.iter().position(|x| x == n).unwrap();
    assert!(pos("Uno") < pos("Dos"));
    assert!(pos("Dos") < pos("Tres"));
}

#[test]
fn autorreferencia_queda_como_campo() {
    let campos = vec![calc(1, "A", "A+1")];
    let ix = indexar_calculados(&campos);
    assert_eq!(orden_topologico(&campos, &ix), Ok(vec!["A".to_string()]));
    let (asts, orden) = compilar_todo(&campos).unwrap();
    assert_eq!(orden, vec!["A".to_string()]);
    assert_eq!(evaluar(ast_de(&asts, "A"), &[("A", 4.0)]), 5.0);
}

#[test]
fn formato_iso_y_lectura_con_formato() {
    assert_eq!(formato_iso(fecha(2026, 6, 5)), "2026-06-05");
    assert_eq!(
        fecha_iso_con_formato("05/06/2026", "%d/%m/%Y"),
        Some("2026-06-05".to_string())
    );
    assert_eq!(fecha_iso_con_formato("31/02/2026", "%d/%m/%Y"), None);
}

#[test]
fn dias_a_fecha_del_epoch() {
    assert_eq!(dias_a_fecha(0), fecha(1900, 1, 1));
    assert_eq!(dias_a_fecha(31), fecha(1900, 2, 1));
    assert_eq!(fecha_a_dias(fecha(1899, 12, 31)), -1);
}

#[test]
fn orden_de_recalculo_es_el_del_recorrido_en_profundidad() {
    let campos = vec![calc(1, "A", "B+C"), calc(2, "B", "1"), calc(3, "C", "B*2")];
    let ix = indexar_calculados(&campos);
    assert_eq!(
        orden_topologico(&campos, &ix),
        Ok(vec!["B".to_string(), "C".to_string(), "A".to_string()])
    );
    let (_, orden) = compilar_todo(&campos).unwrap();
    assert_eq!(orden, vec!["B".to_string(), "C".to_string(), "A".to_string()]);
}

#[test]
fn ciclo_nombra_el_campo_donde_se_cierra() {
    let campos = vec![calc(1, "X", "Y+1"), calc(2, "Y", "X+1")];
    let ix = indexar_calculados(&campos);
    assert_eq!(
        orden_topologico(&campos, &ix),
        Err(MicError::CicloCalculo("dependencia circular en el campo calculado 'X'".to_string()))
    );
}

#[test]
fn tokens_unidos_son_la_formula_sin_blancos() {
    let f = "  Precio_1 * 1.5 +\t@FECHA( Alta ) ";
    let ts = tokenizar(f).unwrap();
    let unido: String = ts.iter().map(|t| t.texto.as_str()).collect();
    let sin_blancos: String = f.chars().filter(|c| !c.is_whitespace()).collect();
    assert_eq!(unido, sin_blancos);
    assert!(ts.iter().all(|t| !t.texto.is_empty()));
    assert_eq!(ts.iter().filter(|t| t.tipo == TipoToken::IniciaFuncion).count(), 1);
}
