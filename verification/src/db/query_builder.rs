//! Construcción segura de las cláusulas `WHERE` / `ORDER BY` de una consulta
//! de registros.
//!
//! Reglas de seguridad:
//! - los valores del usuario viajan siempre como parámetros `?`, nunca
//!   dentro del SQL;
//! - los nombres de columna salen solo de la columna física de un campo,
//!   resuelto por su nombre visible; un nombre desconocido se ignora.
//!
//! Las condiciones avanzadas se evalúan de izquierda a derecha sin
//! precedencia entre `Y` y `O`: el acumulado se envuelve en paréntesis en cada
//! paso, `((c1 op c2) op c3)`.

use vstd::prelude::*;
use vstd::string::*;
use crate::calc::sintaxis::{literal_ok, literal_valido};
use crate::model::{
    nombre_tabla_spec, operador_sql, CampoDef, CondicionFiltro, Direccion, OpComp, OpRel, OrdenCampo, QueryReq,
    Tabla, TipoCampo,
};
use crate::texto::{
    concatenar, concatenar3, blanco, cadena, caracteres, es_blanco, igual_sin_caja, iguales_sin_caja, recortado, recortar,
    tramo,
};

verus! {

/// Parámetro posicional de una consulta. Un número real se guarda con el
/// texto que lo denota (ya en la forma que acepta `f64::from_str`).
#[derive(Debug, Clone)]
pub enum ParamSql {
    Entero(i64),
    Real(String),
    Texto(String),
}

/// Vista de un parámetro.
pub enum ParamSpec {
    Entero(i64),
    Real(Seq<char>),
    Texto(Seq<char>),
}

pub open spec fn vista_param(p: ParamSql) -> ParamSpec {
    match p {
        ParamSql::Entero(n) => ParamSpec::Entero(n),
        ParamSql::Real(s) => ParamSpec::Real(s@),
        ParamSql::Texto(s) => ParamSpec::Texto(s@),
    }
}

pub open spec fn vista_params(v: Seq<ParamSql>) -> Seq<ParamSpec> {
    v.map_values(|p: ParamSql| vista_param(p))
}

/// Fragmentos de SQL construidos con sus parámetros posicionales.
pub struct Construido {
    /// Cláusula `WHERE` (sin la palabra `WHERE`), o vacía.
    pub where_sql: String,
    /// Cláusula `ORDER BY` (sin las palabras `ORDER BY`).
    pub order_sql: String,
    /// `JOIN` para la búsqueda de texto completo (vacío sin búsqueda).
    pub join_sql: String,
    /// Parámetros en orden de aparición.
    pub params: Vec<ParamSql>,
}

// ---------------------------------------------------------------------------
// Números
// ---------------------------------------------------------------------------

/// Sin el signo inicial (`+` o `-`), si lo hay.
pub open spec fn sin_signo(s: Seq<char>) -> Seq<char> {
    if s.len() > 0 && (s[0] == '+' || s[0] == '-') {
        s.drop_first()
    } else {
        s
    }
}

/// Posición de la primera `e` o `E` (o la longitud si no hay).
pub open spec fn primera_e(t: Seq<char>) -> int
    decreases t.len(),
{
    if t.len() == 0 {
        0
    } else if t[0] == 'e' || t[0] == 'E' {
        0
    } else {
        1 + primera_e(t.drop_first())
    }
}

/// `s` es un número según la gramática de `f64::from_str` (sin distinguir
/// mayúsculas): signo opcional y `inf`, `infinity`, `nan`, o dígitos con a lo
/// sumo un punto y al menos una cifra, seguidos opcionalmente de `e`, signo
/// opcional y al menos una cifra.
pub open spec fn es_flotante(s: Seq<char>) -> bool {
    let t = sin_signo(s);
    let p = primera_e(t);
    ||| igual_sin_caja(t, "inf"@)
    ||| igual_sin_caja(t, "infinity"@)
    ||| igual_sin_caja(t, "nan"@)
    ||| literal_valido(t.subrange(0, p)) && (p == t.len() || {
        let x = sin_signo(t.subrange(p + 1, t.len() as int));
        x.len() > 0 && forall|i: int| 0 <= i < x.len() ==> '0' <= #[trigger] x[i] <= '9'
    })
}

proof fn lema_primera_e(t: Seq<char>, k: int)
    requires
        0 <= k <= t.len(),
        forall|m: int| 0 <= m < k ==> #[trigger] t[m] != 'e' && t[m] != 'E',
        k == t.len() || t[k] == 'e' || t[k] == 'E',
    ensures
        primera_e(t) == k,
    decreases t.len(),
{
    if t.len() > 0 && k > 0 {
        assert forall|m: int| 0 <= m < k - 1 implies #[trigger] t.drop_first()[m] != 'e'
            && t.drop_first()[m] != 'E' by {
            assert(t.drop_first()[m] == t[m + 1]);
        }
        if k < t.len() {
            assert(t.drop_first()[k - 1] == t[k]);
        }
        lema_primera_e(t.drop_first(), k - 1);
        assert(t[0] != 'e' && t[0] != 'E');
    }
}

/// Reconoce los números que acepta `f64::from_str`.
pub fn reconoce_flotante(s: &Vec<char>) -> (r: bool)
    ensures
        r == es_flotante(s@),
{
    let ini: usize = if s.len() > 0 && (s[0] == '+' || s[0] == '-') {
        1
    } else {
        0
    };
    let t = tramo(s, ini, s.len());
    assert(t@ =~= sin_signo(s@));
    let inf = caracteres("inf");
    let infinity = caracteres("infinity");
    let nan = caracteres("nan");
    if iguales_sin_caja(&t, &inf) || iguales_sin_caja(&t, &infinity) || iguales_sin_caja(&t, &nan) {
        return true;
    }
    let mut p: usize = 0;
    while p < t.len() && t[p] != 'e' && t[p] != 'E'
        invariant
            p <= t.len(),
            forall|m: int| 0 <= m < p ==> #[trigger] t@[m] != 'e' && t@[m] != 'E',
        decreases t.len() - p,
    {
        p += 1;
    }
    proof {
        lema_primera_e(t@, p as int);
    }
    let mant = tramo(&t, 0, p);
    if !literal_ok(&mant) {
        return false;
    }
    if p == t.len() {
        return true;
    }
    let e_ini: usize = if p + 1 < t.len() && (t[p + 1] == '+' || t[p + 1] == '-') {
        p + 2
    } else {
        p + 1
    };
    let ghost x = sin_signo(t@.subrange(p + 1, t.len() as int));
    assert(x =~= t@.subrange(e_ini as int, t.len() as int));
    if e_ini >= t.len() {
        return false;
    }
    let mut k: usize = e_ini;
    assert(es_flotante(s@) == (forall|i: int| 0 <= i < x.len() ==> '0' <= #[trigger] x[i] <= '9'));
    while k < t.len()
        invariant
            e_ini <= k <= t.len(),
            x == t@.subrange(e_ini as int, t.len() as int),
            es_flotante(s@) == (forall|i: int| 0 <= i < x.len() ==> '0' <= #[trigger] x[i] <= '9'),
            forall|m: int| e_ini <= m < k ==> '0' <= #[trigger] t@[m] <= '9',
        decreases t.len() - k,
    {
        if !('0' <= t[k] && t[k] <= '9') {
            assert(x[k - e_ini] == t@[k as int]);
            return false;
        }
        k += 1;
    }
    assert forall|i: int| 0 <= i < x.len() implies '0' <= #[trigger] x[i] <= '9' by {
        assert(x[i] == t@[e_ini + i]);
    }
    true
}

// ---------------------------------------------------------------------------
// Campos
// ---------------------------------------------------------------------------

/// El campo de `campos` de la tabla `tabla` con nombre visible `nombre` (si
/// varios lo comparten, el último).
pub open spec fn campo_buscado(campos: Seq<CampoDef>, tabla: Tabla, nombre: Seq<char>) -> Option<
    CampoDef,
>
    decreases campos.len(),
{
    if campos.len() == 0 {
        None
    } else if campos.last().tabla == tabla && campos.last().nombre@ == nombre {
        Some(campos.last())
    } else {
        campo_buscado(campos.drop_last(), tabla, nombre)
    }
}

/// Índice de los campos de una tabla por nombre visible.
pub struct Indice<'a> {
    pub campos: &'a [CampoDef],
    pub tabla: Tabla,
}

impl<'a> Indice<'a> {
    /// Índice de los campos de `tabla` entre `campos`.
    pub fn nuevo(campos: &'a [CampoDef], tabla: Tabla) -> (r: Indice<'a>)
        ensures
            r.campos@ == campos@,
            r.tabla == tabla,
    {
        Indice { campos, tabla }
    }

    /// El campo de la tabla del índice con nombre visible `nombre`.
    pub fn buscar(&self, nombre: &str) -> (r: Option<&'a CampoDef>)
        ensures
            match campo_buscado(self.campos@, self.tabla, nombre@) {
                Some(c) => r matches Some(x) && *x == c,
                None => r is None,
            },
    {
        let n = String::from_str(nombre);
        let mut j: usize = self.campos.len();
        assert(self.campos@.subrange(0, j as int) =~= self.campos@);
        while j > 0
            invariant
                j <= self.campos.len(),
                n@ == nombre@,
                campo_buscado(self.campos@, self.tabla, nombre@) == campo_buscado(
                    self.campos@.subrange(0, j as int),
                    self.tabla,
                    nombre@,
                ),
            decreases j,
        {
            let ghost sub = self.campos@.subrange(0, j as int);
            assert(sub.drop_last() =~= self.campos@.subrange(0, j - 1));
            assert(sub.last() == self.campos@[j - 1]);
            if self.campos[j - 1].tabla == self.tabla && self.campos[j - 1].nombre == n {
                return Some(&self.campos[j - 1]);
            }
            j -= 1;
        }
        None
    }
}


// ---------------------------------------------------------------------------
// Predicados
// ---------------------------------------------------------------------------

/// Parámetro con el valor que escribió el usuario, convertido según el tipo
/// del campo: en los numéricos (número, moneda, calculado), si el texto sin
/// blancos y con la coma como punto es un número, el número; si no, el
/// texto tal cual.
pub open spec fn valor_campo_spec(tipo: TipoCampo, valor: Seq<char>) -> ParamSpec {
    let t = recortado(valor).map_values(|c: char| if c == ',' { '.' } else { c });
    if (tipo == TipoCampo::Numerico || tipo == TipoCampo::Moneda || tipo == TipoCampo::Calculado)
        && es_flotante(t) {
        ParamSpec::Real(t)
    } else {
        ParamSpec::Texto(valor)
    }
}

/// Convierte el valor del usuario al parámetro adecuado al tipo del campo,
/// para que las comparaciones numéricas usen el orden correcto.
pub fn valor_para_campo(campo: &CampoDef, valor: &str) -> (r: ParamSql)
    ensures
        vista_param(r) == valor_campo_spec(campo.tipo, valor@),
{
    match campo.tipo {
        TipoCampo::Numerico | TipoCampo::Moneda | TipoCampo::Calculado => {
            let t = recortar(&caracteres(valor));
            let mut u: Vec<char> = Vec::new();
            let mut i: usize = 0;
            while i < t.len()
                invariant
                    i <= t.len(),
                    u@ == t@.subrange(0, i as int).map_values(
                        |c: char| if c == ',' { '.' } else { c },
                    ),
                decreases t.len() - i,
            {
                u.push(if t[i] == ',' { '.' } else { t[i] });
                i += 1;
                assert(u@ =~= t@.subrange(0, i as int).map_values(
                    |c: char| if c == ',' { '.' } else { c },
                ));
            }
            assert(t@.subrange(0, t.len() as int) =~= t@);
            if reconoce_flotante(&u) {
                ParamSql::Real(cadena(&u))
            } else {
                ParamSql::Texto(String::from_str(valor))
            }
        },
        _ => ParamSql::Texto(String::from_str(valor)),
    }
}

/// `1` si el alias es el de la tabla principal, `0` si no.
pub open spec fn marca_principal(alias: Seq<char>) -> i64 {
    if alias == "principal"@ {
        1
    } else {
        0
    }
}

fn marca_principal_exec(alias: &str) -> (r: i64)
    ensures
        r == marca_principal(alias@),
{
    if String::from_str(alias) == String::from_str("principal") {
        1
    } else {
        0
    }
}

/// Subconsulta sobre los valores de un multidato del registro.
pub open spec fn existe_md(alias: Seq<char>, cmp: Seq<char>) -> Seq<char> {
    "EXISTS (SELECT 1 FROM multidatos m WHERE m.reg_id = "@ + alias
        + "._id_ AND m.campo_id = ? AND m.principal = ? AND m.valor "@ + cmp + " ?)"@
}

fn existe_md_exec(alias: &str, cmp: &str) -> (r: String)
    ensures
        r@ == existe_md(alias@, cmp@),
{
    let mut s = String::from_str("EXISTS (SELECT 1 FROM multidatos m WHERE m.reg_id = ");
    s.append(alias);
    s.append("._id_ AND m.campo_id = ? AND m.principal = ? AND m.valor ");
    s.append(cmp);
    s.append(" ?)");
    s
}

/// Columna física de un campo con el alias de la tabla.
pub open spec fn columna(alias: Seq<char>, c: CampoDef) -> Seq<char> {
    alias + "."@ + c.col_fisica@
}

fn columna_exec(alias: &str, c: &CampoDef) -> (r: String)
    ensures
        r@ == columna(alias@, *c),
{
    let mut s = String::from_str(alias);
    s.append(".");
    s.append(c.col_fisica.as_str());
    s
}

/// Igualdad con un valor, para el filtro rápido y los niveles de un grupo:
/// sobre los valores de un multidato, o sobre la columna del campo.
pub open spec fn igualdad_spec(alias: Seq<char>, c: CampoDef, valor: Seq<char>) -> (
    Seq<char>,
    Seq<ParamSpec>,
) {
    if c.tipo == TipoCampo::Multidato {
        (
            existe_md(alias, "="@),
            seq![
                ParamSpec::Entero(c.id),
                ParamSpec::Entero(marca_principal(alias)),
                ParamSpec::Texto(valor),
            ],
        )
    } else {
        (columna(alias, c) + " = ?"@, seq![valor_campo_spec(c.tipo, valor)])
    }
}

fn igualdad(alias: &str, c: &CampoDef, valor: &str) -> (r: (String, Vec<ParamSql>))
    ensures
        (r.0@, vista_params(r.1@)) == igualdad_spec(alias@, *c, valor@),
{
    let mut params: Vec<ParamSql> = Vec::new();
    if c.tipo == TipoCampo::Multidato {
        params.push(ParamSql::Entero(c.id));
        params.push(ParamSql::Entero(marca_principal_exec(alias)));
        params.push(ParamSql::Texto(String::from_str(valor)));
        assert(vista_params(params@) =~= igualdad_spec(alias@, *c, valor@).1);
        (existe_md_exec(alias, "="), params)
    } else {
        let mut s = columna_exec(alias, c);
        s.append(" = ?");
        params.push(valor_para_campo(c, valor));
        assert(vista_params(params@) =~= igualdad_spec(alias@, *c, valor@).1);
        (s, params)
    }
}

/// Predicado SQL de una comparación de filtro avanzado, con sus parámetros.
/// En un multidato se compara contra sus valores; `contiene` y `empieza`
/// usan `LIKE` con comodines.
pub open spec fn predicado_spec(alias: Seq<char>, c: CampoDef, op: OpComp, valor: Seq<char>) -> (
    Seq<char>,
    Seq<ParamSpec>,
) {
    if c.tipo == TipoCampo::Multidato {
        let cmp = match op {
            OpComp::Contiene => "LIKE"@,
            OpComp::Empieza => "LIKE"@,
            OpComp::Distinto => "<>"@,
            _ => "="@,
        };
        let v = match op {
            OpComp::Contiene => "%"@ + valor + "%"@,
            OpComp::Empieza => valor + "%"@,
            _ => valor,
        };
        (
            existe_md(alias, cmp),
            seq![
                ParamSpec::Entero(c.id),
                ParamSpec::Entero(marca_principal(alias)),
                ParamSpec::Texto(v),
            ],
        )
    } else {
        let col = columna(alias, c);
        match op {
            OpComp::Igual => (col + " = ?"@, seq![valor_campo_spec(c.tipo, valor)]),
            OpComp::Distinto => (col + " <> ?"@, seq![valor_campo_spec(c.tipo, valor)]),
            OpComp::Mayor => (col + " > ?"@, seq![valor_campo_spec(c.tipo, valor)]),
            OpComp::Menor => (col + " < ?"@, seq![valor_campo_spec(c.tipo, valor)]),
            OpComp::MayorIgual => (col + " >= ?"@, seq![valor_campo_spec(c.tipo, valor)]),
            OpComp::MenorIgual => (col + " <= ?"@, seq![valor_campo_spec(c.tipo, valor)]),
            OpComp::Contiene => (
                "CAST("@ + col + " AS TEXT) LIKE ?"@,
                seq![ParamSpec::Texto("%"@ + valor + "%"@)],
            ),
            OpComp::Empieza => (
                "CAST("@ + col + " AS TEXT) LIKE ?"@,
                seq![ParamSpec::Texto(valor + "%"@)],
            ),
        }
    }
}

/// Predicado SQL de una comparación individual, con sus parámetros.
pub fn predicado_comparacion(alias: &str, campo: &CampoDef, op: OpComp, valor: &str) -> (r: (
    String,
    Vec<ParamSql>,
))
    ensures
        (r.0@, vista_params(r.1@)) == predicado_spec(alias@, *campo, op, valor@),
{
    let mut params: Vec<ParamSql> = Vec::new();
    if campo.tipo == TipoCampo::Multidato {
        let cmp = match op {
            OpComp::Contiene => "LIKE",
            OpComp::Empieza => "LIKE",
            OpComp::Distinto => "<>",
            _ => "=",
        };
        let v = match op {
            OpComp::Contiene => {
                let mut s = String::from_str("%");
                s.append(valor);
                s.append("%");
                s
            },
            OpComp::Empieza => {
                let mut s = String::from_str(valor);
                s.append("%");
                s
            },
            _ => String::from_str(valor),
        };
        params.push(ParamSql::Entero(campo.id));
        params.push(ParamSql::Entero(marca_principal_exec(alias)));
        params.push(ParamSql::Texto(v));
        assert(vista_params(params@) =~= predicado_spec(alias@, *campo, op, valor@).1);
        return (existe_md_exec(alias, cmp), params);
    }
    let col = columna_exec(alias, campo);
    let (texto, p) = match op {
        OpComp::Igual => (concatenar(col.as_str(), " = ?"), valor_para_campo(campo, valor)),
        OpComp::Distinto => (concatenar(col.as_str(), " <> ?"), valor_para_campo(campo, valor)),
        OpComp::Mayor => (concatenar(col.as_str(), " > ?"), valor_para_campo(campo, valor)),
        OpComp::Menor => (concatenar(col.as_str(), " < ?"), valor_para_campo(campo, valor)),
        OpComp::MayorIgual => (concatenar(col.as_str(), " >= ?"), valor_para_campo(campo, valor)),
        OpComp::MenorIgual => (concatenar(col.as_str(), " <= ?"), valor_para_campo(campo, valor)),
        OpComp::Contiene => {
            let mut s = String::from_str("%");
            s.append(valor);
            s.append("%");
            (concatenar3("CAST(", col.as_str(), " AS TEXT) LIKE ?"), ParamSql::Texto(s))
        },
        OpComp::Empieza => {
            let mut s = String::from_str(valor);
            s.append("%");
            (concatenar3("CAST(", col.as_str(), " AS TEXT) LIKE ?"), ParamSql::Texto(s))
        },
    };
    params.push(p);
    assert(vista_params(params@) =~= predicado_spec(alias@, *campo, op, valor@).1);
    (texto, params)
}

// ---------------------------------------------------------------------------
// Condiciones avanzadas
// ---------------------------------------------------------------------------

/// Conector SQL de una condición: `OR` para `O`; `AND` en otro caso.
pub open spec fn conector(op: Option<OpRel>) -> Seq<char> {
    match op {
        Some(OpRel::O) => "OR"@,
        _ => "AND"@,
    }
}

/// Condiciones avanzadas combinadas de izquierda a derecha, cada paso entre
/// paréntesis (las de campo desconocido se omiten), con sus parámetros.
pub open spec fn condiciones_spec(
    campos: Seq<CampoDef>,
    tabla: Tabla,
    alias: Seq<char>,
    conds: Seq<CondicionFiltro>,
) -> (Seq<char>, Seq<ParamSpec>)
    decreases conds.len(),
{
    if conds.len() == 0 {
        (Seq::empty(), Seq::empty())
    } else {
        let previo = condiciones_spec(campos, tabla, alias, conds.drop_last());
        let cond = conds.last();
        match campo_buscado(campos, tabla, cond.campo@) {
            None => previo,
            Some(c) => {
                let p = predicado_spec(alias, c, cond.op_comp, cond.valor@);
                (
                    if previo.0.len() == 0 {
                        p.0
                    } else {
                        "("@ + previo.0 + " "@ + conector(cond.op_rel) + " "@ + p.0 + ")"@
                    },
                    previo.1 + p.1,
                )
            },
        }
    }
}

/// Los valores de las condiciones nunca entran en el texto SQL: dos listas de
/// condiciones que solo difieren en sus valores dan la misma cláusula (los
/// valores viajan como parámetros).
pub proof fn ley_valores_como_parametros(
    campos: Seq<CampoDef>,
    tabla: Tabla,
    alias: Seq<char>,
    a: Seq<CondicionFiltro>,
    b: Seq<CondicionFiltro>,
)
    requires
        a.len() == b.len(),
        forall|i: int|
            0 <= i < a.len() ==> (#[trigger] a[i]).campo@ == b[i].campo@ && a[i].op_rel == b[i].op_rel
                && a[i].op_comp == b[i].op_comp,
    ensures
        condiciones_spec(campos, tabla, alias, a).0 == condiciones_spec(campos, tabla, alias, b).0,
        condiciones_spec(campos, tabla, alias, a).1.len() == condiciones_spec(
            campos,
            tabla,
            alias,
            b,
        ).1.len(),
    decreases a.len(),
{
    if a.len() > 0 {
        assert forall|i: int| 0 <= i < a.drop_last().len() implies (#[trigger] a.drop_last()[i]).campo@
            == b.drop_last()[i].campo@ && a.drop_last()[i].op_rel == b.drop_last()[i].op_rel
            && a.drop_last()[i].op_comp == b.drop_last()[i].op_comp by {
            assert(a.drop_last()[i] == a[i]);
            assert(b.drop_last()[i] == b[i]);
        }
        ley_valores_como_parametros(campos, tabla, alias, a.drop_last(), b.drop_last());
        assert(a.last() == a[a.len() - 1]);
        assert(b.last() == b[b.len() - 1]);
    }
}

/// Cláusula de las condiciones avanzadas, de izquierda a derecha sin
/// precedencia entre `Y` y `O`; `None` si ninguna condición aplica.
pub fn clausula_condiciones(idx: &Indice, alias: &str, condiciones: &[CondicionFiltro]) -> (r: (
    Option<String>,
    Vec<ParamSql>,
))
    ensures
        ({
            let e = condiciones_spec(idx.campos@, idx.tabla, alias@, condiciones@);
            &&& vista_params(r.1@) == e.1
            &&& (if e.0.len() == 0 {
                r.0 is None
            } else {
                r.0 matches Some(s) && s@ == e.0
            })
        }),
{
    let mut acumulado = String::new();
    let mut params: Vec<ParamSql> = Vec::new();
    let mut i: usize = 0;
    assert(condiciones@.subrange(0, 0) =~= Seq::<CondicionFiltro>::empty());
    assert(vista_params(params@) =~= Seq::<ParamSpec>::empty());
    while i < condiciones.len()
        invariant
            i <= condiciones.len(),
            (acumulado@, vista_params(params@)) == condiciones_spec(
                idx.campos@,
                idx.tabla,
                alias@,
                condiciones@.subrange(0, i as int),
            ),
        decreases condiciones.len() - i,
    {
        let ghost sub = condiciones@.subrange(0, i + 1);
        assert(sub.drop_last() =~= condiciones@.subrange(0, i as int));
        assert(sub.last() == condiciones@[i as int]);
        let cond = &condiciones[i];
        match idx.buscar(cond.campo.as_str()) {
            None => {},
            Some(campo) => {
                let (pred, pp) = predicado_comparacion(alias, campo, cond.op_comp, cond.valor.as_str());
                anexar(&mut params, &pp);
                if acumulado.as_str().is_empty() {
                    proof {
                        assert(acumulado@.len() == 0);
                    }
                    acumulado = pred;
                } else {
                    proof {
                        assert(acumulado@.len() != 0);
                    }
                    let con = match cond.op_rel {
                        Some(OpRel::O) => "OR",
                        _ => "AND",
                    };
                    let mut s = String::from_str("(");
                    s.append(acumulado.as_str());
                    s.append(" ");
                    s.append(con);
                    s.append(" ");
                    s.append(pred.as_str());
                    s.append(")");
                    acumulado = s;
                }
            },
        }
        i += 1;
    }
    assert(condiciones@.subrange(0, condiciones.len() as int) =~= condiciones@);
    if acumulado.as_str().is_empty() {
        proof {
            assert(acumulado@.len() == 0);
        }
        (None, params)
    } else {
        (Some(acumulado), params)
    }
}

/// Añade al final de `dest` copias de los parámetros de `src`.
fn anexar(dest: &mut Vec<ParamSql>, src: &Vec<ParamSql>)
    ensures
        vista_params(final(dest)@) == vista_params(old(dest)@) + vista_params(src@),
{
    let ghost p0 = vista_params(dest@);
    let mut k: usize = 0;
    while k < src.len()
        invariant
            k <= src.len(),
            vista_params(dest@) == p0 + vista_params(src@.subrange(0, k as int)),
        decreases src.len() - k,
    {
        let ghost d0 = dest@;
        let x = src[k].clone_param();
        dest.push(x);
        assert(dest@ == d0.push(x));
        assert(vista_params(dest@) =~= vista_params(d0).push(vista_param(x)));
        assert(vista_params(src@.subrange(0, k + 1)) =~= vista_params(src@.subrange(0, k as int)).push(
            vista_param(src@[k as int]),
        ));
        k += 1;
    }
    assert(src@.subrange(0, src.len() as int) =~= src@);
}

impl ParamSql {
    /// Copia de un parámetro.
    pub fn clone_param(&self) -> (r: ParamSql)
        ensures
            vista_param(r) == vista_param(*self),
    {
        match self {
            ParamSql::Entero(n) => ParamSql::Entero(*n),
            ParamSql::Real(s) => ParamSql::Real(s.clone()),
            ParamSql::Texto(s) => ParamSql::Texto(s.clone()),
        }
    }
}


// ---------------------------------------------------------------------------
// Grupos, orden, búsqueda y consulta completa
// ---------------------------------------------------------------------------

/// Partes y parámetros de las igualdades de los niveles de un grupo.
pub open spec fn grupo_spec(alias: Seq<char>, niveles: Seq<(&CampoDef, String)>) -> (
    Seq<Seq<char>>,
    Seq<ParamSpec>,
)
    decreases niveles.len(),
{
    if niveles.len() == 0 {
        (Seq::empty(), Seq::empty())
    } else {
        let previo = grupo_spec(alias, niveles.drop_last());
        let n = niveles.last();
        let e = igualdad_spec(alias, *n.0, n.1@);
        (previo.0.push(e.0), previo.1 + e.1)
    }
}

/// Partes unidas con el separador `sep`.
pub open spec fn unir(partes: Seq<Seq<char>>, sep: Seq<char>) -> Seq<char>
    decreases partes.len(),
{
    if partes.len() == 0 {
        Seq::empty()
    } else if partes.len() == 1 {
        partes[0]
    } else {
        unir(partes.drop_last(), sep) + sep + partes.last()
    }
}

/// Une partes con un separador.
pub(crate) fn unir_exec(partes: &Vec<String>, sep: &str) -> (r: String)
    ensures
        r@ == unir(partes@.map_values(|s: String| s@), sep@),
{
    let ghost vp = partes@.map_values(|s: String| s@);
    let mut r = String::new();
    let mut i: usize = 0;
    assert(vp.subrange(0, 0) =~= Seq::<Seq<char>>::empty());
    while i < partes.len()
        invariant
            i <= partes.len(),
            vp == partes@.map_values(|s: String| s@),
            r@ == unir(vp.subrange(0, i as int), sep@),
        decreases partes.len() - i,
    {
        let ghost sub = vp.subrange(0, i + 1);
        assert(sub.drop_last() =~= vp.subrange(0, i as int));
        assert(sub.last() == partes@[i as int]@);
        if i > 0 {
            r.append(sep);
        }
        r.append(partes[i].as_str());
        proof {
            if i == 0 {
                assert(vp.subrange(0, 0).len() == 0);
                assert(r@ =~= partes@[0]@);
            }
        }
        i += 1;
    }
    assert(vp.subrange(0, partes.len() as int) =~= vp);
    r
}

/// Igualdades de los niveles ya resueltos de un grupo, unidas con `AND`,
/// con sus parámetros.
pub fn condiciones_grupo(alias: &str, niveles: &[(&CampoDef, String)]) -> (r: (String, Vec<ParamSql>))
    ensures
        r.0@ == unir(grupo_spec(alias@, niveles@).0, " AND "@),
        vista_params(r.1@) == grupo_spec(alias@, niveles@).1,
{
    let mut partes: Vec<String> = Vec::new();
    let mut params: Vec<ParamSql> = Vec::new();
    let mut i: usize = 0;
    assert(niveles@.subrange(0, 0) =~= Seq::<(&CampoDef, String)>::empty());
    assert(partes@.map_values(|s: String| s@) =~= Seq::<Seq<char>>::empty());
    assert(vista_params(params@) =~= Seq::<ParamSpec>::empty());
    while i < niveles.len()
        invariant
            i <= niveles.len(),
            partes@.map_values(|s: String| s@) == grupo_spec(alias@, niveles@.subrange(0, i as int)).0,
            vista_params(params@) == grupo_spec(alias@, niveles@.subrange(0, i as int)).1,
        decreases niveles.len() - i,
    {
        let ghost sub = niveles@.subrange(0, i + 1);
        assert(sub.drop_last() =~= niveles@.subrange(0, i as int));
        assert(sub.last() == niveles@[i as int]);
        let (campo, valor) = &niveles[i];
        let (parte, pp) = igualdad(alias, *campo, valor.as_str());
        let ghost v0 = partes@.map_values(|s: String| s@);
        partes.push(parte);
        assert(partes@.map_values(|s: String| s@) =~= v0.push(parte@));
        anexar(&mut params, &pp);
        i += 1;
    }
    assert(niveles@.subrange(0, niveles.len() as int) =~= niveles@);
    (unir_exec(&partes, " AND "), params)
}

/// Texto de una dirección de orden.
pub open spec fn direccion_spec(d: Direccion) -> Seq<char> {
    match d {
        Direccion::Asc => "ASC"@,
        Direccion::Desc => "DESC"@,
    }
}

/// Partes del orden para los niveles `orden` (solo los de campo conocido).
pub open spec fn partes_orden(
    campos: Seq<CampoDef>,
    tabla: Tabla,
    alias: Seq<char>,
    orden: Seq<OrdenCampo>,
) -> Seq<Seq<char>>
    decreases orden.len(),
{
    if orden.len() == 0 {
        Seq::empty()
    } else {
        let previo = partes_orden(campos, tabla, alias, orden.drop_last());
        let n = orden.last();
        match campo_buscado(campos, tabla, n.campo@) {
            Some(c) => previo.push(columna(alias, c) + " "@ + direccion_spec(n.direccion)),
            None => previo,
        }
    }
}

/// Las partes del orden siguen el orden de los niveles pedidos: las de unos
/// niveles seguidos de otros son las de los primeros seguidas de las de los
/// segundos; y un nivel da su columna y su dirección si el campo es conocido,
/// y nada si no.
pub proof fn ley_orden_sigue_los_niveles(
    campos: Seq<CampoDef>,
    tabla: Tabla,
    alias: Seq<char>,
    a: Seq<OrdenCampo>,
    b: Seq<OrdenCampo>,
)
    ensures
        partes_orden(campos, tabla, alias, a + b) == partes_orden(campos, tabla, alias, a) + partes_orden(
            campos,
            tabla,
            alias,
            b,
        ),
        forall|n: OrdenCampo| #[trigger] partes_orden(campos, tabla, alias, seq![n]) == match campo_buscado(
            campos,
            tabla,
            n.campo@,
        ) {
            Some(c) => seq![columna(alias, c) + " "@ + direccion_spec(n.direccion)],
            None => Seq::<Seq<char>>::empty(),
        },
    decreases b.len(),
{
    assert forall|n: OrdenCampo| #[trigger] partes_orden(campos, tabla, alias, seq![n]) == match campo_buscado(
        campos,
        tabla,
        n.campo@,
    ) {
        Some(c) => seq![columna(alias, c) + " "@ + direccion_spec(n.direccion)],
        None => Seq::<Seq<char>>::empty(),
    } by {
        assert(seq![n].drop_last() =~= Seq::<OrdenCampo>::empty());
        assert(seq![n].last() == n);
        assert(partes_orden(campos, tabla, alias, Seq::<OrdenCampo>::empty()) == Seq::<Seq<char>>::empty());
        match campo_buscado(campos, tabla, n.campo@) {
            Some(c) => {
                assert(Seq::<Seq<char>>::empty().push(columna(alias, c) + " "@ + direccion_spec(n.direccion))
                    =~= seq![columna(alias, c) + " "@ + direccion_spec(n.direccion)]);
            },
            None => {},
        }
    }
    if b.len() == 0 {
        assert(a + b =~= a);
        assert(partes_orden(campos, tabla, alias, a) + Seq::<Seq<char>>::empty() =~= partes_orden(campos, tabla, alias, a));
    } else {
        ley_orden_sigue_los_niveles(campos, tabla, alias, a, b.drop_last());
        assert((a + b).drop_last() =~= a + b.drop_last());
        assert((a + b).last() == b.last());
        let pa = partes_orden(campos, tabla, alias, a);
        let pb = partes_orden(campos, tabla, alias, b.drop_last());
        match campo_buscado(campos, tabla, b.last().campo@) {
            Some(c) => {
                assert((pa + pb).push(columna(alias, c) + " "@ + direccion_spec(b.last().direccion)) =~= pa + pb.push(
                    columna(alias, c) + " "@ + direccion_spec(b.last().direccion),
                ));
            },
            None => {},
        }
    }
}

/// `ORDER BY` de los hasta tres primeros niveles y `_id_` como desempate.
pub open spec fn orden_spec(
    campos: Seq<CampoDef>,
    tabla: Tabla,
    alias: Seq<char>,
    orden: Seq<OrdenCampo>,
) -> Seq<char> {
    let n = if orden.len() < 3 {
        orden.len() as int
    } else {
        3
    };
    unir(
        partes_orden(campos, tabla, alias, orden.subrange(0, n)).push(alias + "._id_ ASC"@),
        ", "@,
    )
}

/// `ORDER BY` con hasta tres niveles (los de campo desconocido se omiten) y
/// `_id_` ascendente como desempate estable.
pub fn clausula_orden(idx: &Indice, alias: &str, orden: &[OrdenCampo]) -> (r: String)
    ensures
        r@ == orden_spec(idx.campos@, idx.tabla, alias@, orden@),
{
    let n: usize = if orden.len() < 3 {
        orden.len()
    } else {
        3
    };
    let ghost os = orden@.subrange(0, n as int);
    let mut partes: Vec<String> = Vec::new();
    let mut i: usize = 0;
    assert(os.subrange(0, 0) =~= Seq::<OrdenCampo>::empty());
    assert(partes@.map_values(|s: String| s@) =~= Seq::<Seq<char>>::empty());
    while i < n
        invariant
            i <= n <= orden.len(),
            os == orden@.subrange(0, n as int),
            partes@.map_values(|s: String| s@) == partes_orden(
                idx.campos@,
                idx.tabla,
                alias@,
                os.subrange(0, i as int),
            ),
        decreases n - i,
    {
        let ghost sub = os.subrange(0, i + 1);
        assert(sub.drop_last() =~= os.subrange(0, i as int));
        assert(sub.last() == orden@[i as int]);
        let nivel = &orden[i];
        match idx.buscar(nivel.campo.as_str()) {
            Some(campo) => {
                let mut s = columna_exec(alias, campo);
                s.append(" ");
                s.append(
                    match nivel.direccion {
                        Direccion::Asc => "ASC",
                        Direccion::Desc => "DESC",
                    },
                );
                let ghost v0 = partes@.map_values(|s: String| s@);
                partes.push(s);
                assert(partes@.map_values(|s: String| s@) =~= v0.push(s@));
            },
            None => {},
        }
        i += 1;
    }
    assert(os.subrange(0, n as int) =~= os);
    let mut desempate = String::from_str(alias);
    desempate.append("._id_ ASC");
    let ghost v0 = partes@.map_values(|s: String| s@);
    partes.push(desempate);
    assert(partes@.map_values(|s: String| s@) =~= v0.push(desempate@));
    unir_exec(&partes, ", ")
}

/// Palabras de `s`: tramos máximos sin blancos (`split_whitespace`).
pub open spec fn palabras(s: Seq<char>) -> Seq<Seq<char>>
    decreases s.len(),
{
    if s.len() == 0 {
        Seq::empty()
    } else {
        let p = palabras(s.drop_last());
        if es_blanco(s.last()) {
            p
        } else if s.len() >= 2 && !es_blanco(s[s.len() - 2]) {
            p.update(p.len() - 1, p.last().push(s.last()))
        } else {
            p.push(seq![s.last()])
        }
    }
}

proof fn lema_palabras(s: Seq<char>)
    requires
        s.len() > 0,
        !es_blanco(s.last()),
    ensures
        palabras(s).len() > 0,
    decreases s.len(),
{
    if s.len() >= 2 && !es_blanco(s[s.len() - 2]) {
        assert(s.drop_last().last() == s[s.len() - 2]);
        lema_palabras(s.drop_last());
    }
}

/// `w` sin comillas dobles.
pub open spec fn sin_comillas(w: Seq<char>) -> Seq<char>
    decreases w.len(),
{
    if w.len() == 0 {
        Seq::empty()
    } else if w.last() == '"' {
        sin_comillas(w.drop_last())
    } else {
        sin_comillas(w.drop_last()).push(w.last())
    }
}

/// Consulta de texto completo: cada palabra, sin comillas, entre comillas y
/// con `*` (búsqueda por prefijo), separadas por un espacio.
pub open spec fn fts_spec(entrada: Seq<char>) -> Seq<char> {
    unir(palabras(entrada).map_values(|w: Seq<char>| seq!['"'] + sin_comillas(w) + seq!['"', '*']), " "@)
}

/// Sanea la búsqueda para la consulta de texto completo: cada palabra sin
/// comillas, entre comillas y con `*`, de modo que ningún carácter especial
/// de la sintaxis de búsqueda rompa la consulta.
pub fn consulta_fts(entrada: &str) -> (r: String)
    ensures
        r@ == fts_spec(entrada@),
{
    let v = caracteres(entrada);
    let mut ps: Vec<Vec<char>> = Vec::new();
    let mut i: usize = 0;
    assert(v@.subrange(0, 0) =~= Seq::<char>::empty());
    assert(ps@.map_values(|w: Vec<char>| w@) =~= Seq::<Seq<char>>::empty());
    while i < v.len()
        invariant
            i <= v.len(),
            v@ == entrada@,
            ps@.map_values(|w: Vec<char>| w@) == palabras(v@.subrange(0, i as int)),
        decreases v.len() - i,
    {
        let ghost pre = v@.subrange(0, i as int);
        let ghost post = v@.subrange(0, i + 1);
        assert(post.drop_last() =~= pre);
        let ghost p0 = ps@.map_values(|w: Vec<char>| w@);
        let c = v[i];
        if !blanco(c) {
            if i > 0 && !blanco(v[i - 1]) {
                proof {
                    assert(pre.last() == v@[i - 1]);
                    lema_palabras(pre);
                }
                let mut ultima = ps.pop().unwrap();
                ultima.push(c);
                ps.push(ultima);
                assert(ps@.map_values(|w: Vec<char>| w@) =~= p0.update(p0.len() - 1, p0.last().push(c)));
            } else {
                let mut nueva: Vec<char> = Vec::new();
                nueva.push(c);
                ps.push(nueva);
                assert(ps@.map_values(|w: Vec<char>| w@) =~= p0.push(seq![c]));
            }
        }
        i += 1;
    }
    assert(v@.subrange(0, v.len() as int) =~= v@);
    let ghost pal = ps@.map_values(|w: Vec<char>| w@);
    let mut tokens: Vec<String> = Vec::new();
    let mut j: usize = 0;
    while j < ps.len()
        invariant
            j <= ps.len(),
            pal == ps@.map_values(|w: Vec<char>| w@),
            tokens@.len() == j,
            forall|k: int|
                0 <= k < j ==> (#[trigger] tokens@[k])@ == seq!['"'] + sin_comillas(pal[k]) + seq![
                    '"',
                    '*',
                ],
        decreases ps.len() - j,
    {
        let w = &ps[j];
        let mut t: Vec<char> = Vec::new();
        t.push('"');
        let mut k: usize = 0;
        assert(w@.subrange(0, 0) =~= Seq::<char>::empty());
        while k < w.len()
            invariant
                k <= w.len(),
                t@ == seq!['"'] + sin_comillas(w@.subrange(0, k as int)),
            decreases w.len() - k,
        {
            let ghost sub = w@.subrange(0, k + 1);
            assert(sub.drop_last() =~= w@.subrange(0, k as int));
            if w[k] != '"' {
                t.push(w[k]);
            }
            k += 1;
            assert(t@ =~= seq!['"'] + sin_comillas(w@.subrange(0, k as int)));
        }
        assert(w@.subrange(0, w.len() as int) =~= w@);
        t.push('"');
        t.push('*');
        assert(t@ =~= seq!['"'] + sin_comillas(pal[j as int]) + seq!['"', '*']);
        tokens.push(cadena(&t));
        j += 1;
    }
    assert(tokens@.map_values(|s: String| s@) =~= pal.map_values(
        |w: Seq<char>| seq!['"'] + sin_comillas(w) + seq!['"', '*'],
    ));
    unir_exec(&tokens, " ")
}

/// Exclusión de los registros ocultos, salvo que se pidan.
pub open spec fn etapa_ocultos(req: QueryReq, alias: Seq<char>) -> Seq<Seq<char>> {
    if !req.incluir_ocultos {
        seq![alias + "._auxiliar_ = 0"@]
    } else {
        Seq::empty()
    }
}

/// Variantes de un registro principal concreto.
pub open spec fn etapa_principal(req: QueryReq, alias: Seq<char>) -> (Seq<Seq<char>>, Seq<ParamSpec>) {
    if req.tabla == Tabla::Variantes && req.id_principal is Some {
        (seq![alias + "._idprincipal_ = ?"@], seq![ParamSpec::Entero(req.id_principal->Some_0)])
    } else {
        (Seq::empty(), Seq::empty())
    }
}

/// Filtro rápido del panel lateral (si el campo es conocido).
pub open spec fn etapa_rapido(campos: Seq<CampoDef>, req: QueryReq, alias: Seq<char>) -> (
    Seq<Seq<char>>,
    Seq<ParamSpec>,
) {
    match req.filtro_rapido {
        Some(fr) => match campo_buscado(campos, req.tabla, fr.campo@) {
            Some(c) => {
                let e = igualdad_spec(alias, c, fr.valor@);
                (seq![e.0], e.1)
            },
            None => (Seq::empty(), Seq::empty()),
        },
        None => (Seq::empty(), Seq::empty()),
    }
}

/// Igualdades del grupo activo, si hay niveles.
pub open spec fn etapa_grupo(alias: Seq<char>, niveles: Seq<(&CampoDef, String)>) -> (
    Seq<Seq<char>>,
    Seq<ParamSpec>,
) {
    let g = grupo_spec(alias, niveles);
    if niveles.len() > 0 {
        (seq![unir(g.0, " AND "@)], g.1)
    } else {
        (Seq::empty(), Seq::empty())
    }
}

/// Condiciones avanzadas, si alguna aplica.
pub open spec fn etapa_condiciones(campos: Seq<CampoDef>, req: QueryReq, alias: Seq<char>) -> (
    Seq<Seq<char>>,
    Seq<ParamSpec>,
) {
    let c = condiciones_spec(campos, req.tabla, alias, req.condiciones@);
    (
        if c.0.len() > 0 {
            seq![c.0]
        } else {
            Seq::empty()
        },
        c.1,
    )
}

/// Búsqueda de texto completo (solo en la tabla principal).
pub open spec fn etapa_busqueda(req: QueryReq, alias: Seq<char>) -> (Seq<char>, Seq<ParamSpec>) {
    match req.busqueda {
        Some(s) => if recortado(s@).len() > 0 && req.tabla == Tabla::Principal {
            (
                " JOIN principal_fts AS fts ON fts.rowid = "@ + alias
                    + "._id_ AND principal_fts MATCH ?"@,
                seq![ParamSpec::Texto(fts_spec(recortado(s@)))],
            )
        } else {
            (Seq::empty(), Seq::empty())
        },
        None => (Seq::empty(), Seq::empty()),
    }
}

/// Las piezas de la consulta de registros de `req`: `WHERE` (las cláusulas
/// de cada etapa unidas con `AND`), `ORDER BY`, `JOIN` y los parámetros en
/// orden de aparición.
pub open spec fn construido_spec(
    campos: Seq<CampoDef>,
    req: QueryReq,
    niveles: Seq<(&CampoDef, String)>,
) -> (Seq<char>, Seq<char>, Seq<char>, Seq<ParamSpec>) {
    let alias = nombre_tabla_spec(req.tabla);
    let e2 = etapa_principal(req, alias);
    let e3 = etapa_rapido(campos, req, alias);
    let e4 = etapa_grupo(alias, niveles);
    let e5 = etapa_condiciones(campos, req, alias);
    let b = etapa_busqueda(req, alias);
    (
        unir(etapa_ocultos(req, alias) + e2.0 + e3.0 + e4.0 + e5.0, " AND "@),
        orden_spec(campos, req.tabla, alias, req.orden@),
        b.0,
        b.1 + e2.1 + e3.1 + e4.1 + e5.1,
    )
}

/// Añade una parte al final de una lista de partes.
fn empujar(partes: &mut Vec<String>, s: String)
    ensures
        final(partes)@.map_values(|x: String| x@) == old(partes)@.map_values(|x: String| x@).push(s@),
{
    let ghost v0 = partes@.map_values(|x: String| x@);
    partes.push(s);
    assert(partes@.map_values(|x: String| x@) =~= v0.push(s@));
}

/// Construye `WHERE`, `ORDER BY`, `JOIN` y los parámetros de la consulta
/// `req` sobre los campos `campos`. `niveles_grupo` son los pares (campo,
/// valor) de los niveles seleccionados del grupo activo, ya resueltos.
pub fn construir(campos: &[CampoDef], req: &QueryReq, niveles_grupo: &[(&CampoDef, String)]) -> (r:
    Construido)
    ensures
        (r.where_sql@, r.order_sql@, r.join_sql@, vista_params(r.params@)) == construido_spec(
            campos@,
            *req,
            niveles_grupo@,
        ),
{
    let tabla = req.tabla;
    let idx = Indice::nuevo(campos, tabla);
    let alias = tabla.nombre();
    let ghost e = construido_spec(campos@, *req, niveles_grupo@);
    let mut clausulas: Vec<String> = Vec::new();
    let mut params: Vec<ParamSql> = Vec::new();
    let ghost cv = |v: Seq<String>| v.map_values(|x: String| x@);
    assert(cv(clausulas@) =~= Seq::<Seq<char>>::empty());
    assert(vista_params(params@) =~= Seq::<ParamSpec>::empty());
    let mut join_sql = String::new();
    match &req.busqueda {
        Some(b) => {
            let t = cadena(&recortar(&caracteres(b.as_str())));
            if !t.as_str().is_empty() && tabla == Tabla::Principal {
                join_sql = concatenar3(
                    " JOIN principal_fts AS fts ON fts.rowid = ",
                    alias,
                    "._id_ AND principal_fts MATCH ?",
                );
                params.push(ParamSql::Texto(consulta_fts(t.as_str())));
            }
        },
        None => {},
    }
    let ghost q1 = vista_params(params@);
    proof {
        assert(join_sql@ == etapa_busqueda(*req, alias@).0);
        assert(q1 =~= etapa_busqueda(*req, alias@).1);
    }
    if !req.incluir_ocultos {
        empujar(&mut clausulas, concatenar(alias, "._auxiliar_ = 0"));
    }
    let ghost k1 = cv(clausulas@);
    if tabla == Tabla::Variantes {
        match req.id_principal {
            Some(idp) => {
                empujar(&mut clausulas, concatenar(alias, "._idprincipal_ = ?"));
                params.push(ParamSql::Entero(idp));
            },
            None => {},
        }
    }
    let ghost k2 = cv(clausulas@);
    let ghost q2 = vista_params(params@);
    proof {
        let al = alias@;
        assert(k1 =~= etapa_ocultos(*req, al));
        assert(k2 =~= k1 + etapa_principal(*req, al).0);
        assert(q2 =~= q1 + etapa_principal(*req, al).1);
    }
    match &req.filtro_rapido {
        Some(fr) => match idx.buscar(fr.campo.as_str()) {
            Some(campo) => {
                let (parte, pp) = igualdad(alias, campo, fr.valor.as_str());
                empujar(&mut clausulas, parte);
                anexar(&mut params, &pp);
            },
            None => {},
        },
        None => {},
    }
    let ghost k3 = cv(clausulas@);
    let ghost q3 = vista_params(params@);
    proof {
        let al = alias@;
        assert(k3 =~= k2 + etapa_rapido(campos@, *req, al).0);
        assert(q3 =~= q2 + etapa_rapido(campos@, *req, al).1);
    }
    if niveles_grupo.len() > 0 {
        let (g, gp) = condiciones_grupo(alias, niveles_grupo);
        empujar(&mut clausulas, g);
        anexar(&mut params, &gp);
    }
    let ghost k4 = cv(clausulas@);
    let ghost q4 = vista_params(params@);
    proof {
        let al = alias@;
        assert(k4 =~= k3 + etapa_grupo(al, niveles_grupo@).0);
        assert(q4 =~= q3 + etapa_grupo(al, niveles_grupo@).1);
    }
    let (cs, cp) = clausula_condiciones(&idx, alias, req.condiciones.as_slice());
    match cs {
        Some(s) => {
            empujar(&mut clausulas, s);
        },
        None => {},
    }
    anexar(&mut params, &cp);
    let ghost k5 = cv(clausulas@);
    let ghost q5 = vista_params(params@);
    proof {
        let al = alias@;
        assert(k5 =~= k4 + etapa_condiciones(campos@, *req, al).0);
        assert(q5 =~= q4 + etapa_condiciones(campos@, *req, al).1);
    }
    let where_sql = unir_exec(&clausulas, " AND ");
    let order_sql = clausula_orden(&idx, alias, req.orden.as_slice());
    proof {
        let al = alias@;
        assert(vista_params(params@) == q5);
        assert(cv(clausulas@) == k5);
        assert(k5 =~= etapa_ocultos(*req, al) + etapa_principal(*req, al).0 + etapa_rapido(
            campos@,
            *req,
            al,
        ).0 + etapa_grupo(al, niveles_grupo@).0 + etapa_condiciones(campos@, *req, al).0);
        assert(vista_params(params@) =~= etapa_busqueda(*req, al).1 + etapa_principal(*req, al).1
            + etapa_rapido(campos@, *req, al).1 + etapa_grupo(al, niveles_grupo@).1
            + etapa_condiciones(campos@, *req, al).1);
    }
    Construido { where_sql, order_sql, join_sql, params }
}

/// La búsqueda de texto completo está activa: hay texto no vacío.
pub open spec fn busqueda_activa(req: QueryReq) -> bool {
    req.busqueda matches Some(t) && recortado(t@).len() > 0
}

/// Dos peticiones que solo difieren en los valores que escribe el usuario:
/// el id del registro principal, el valor del filtro rápido, los valores de
/// las condiciones y el texto de la búsqueda (activa en ambas o en ninguna).
pub open spec fn difieren_en_valores(a: QueryReq, b: QueryReq) -> bool {
    &&& a.tabla == b.tabla
    &&& (a.id_principal is Some <==> b.id_principal is Some)
    &&& match (a.filtro_rapido, b.filtro_rapido) {
        (Some(x), Some(y)) => x.campo@ == y.campo@,
        (None, None) => true,
        _ => false,
    }
    &&& a.condiciones@.len() == b.condiciones@.len()
    &&& forall|i: int|
        0 <= i < a.condiciones@.len() ==> (#[trigger] a.condiciones@[i]).campo@ == b.condiciones@[i].campo@
            && a.condiciones@[i].op_rel == b.condiciones@[i].op_rel && a.condiciones@[i].op_comp
            == b.condiciones@[i].op_comp
    &&& (busqueda_activa(a) <==> busqueda_activa(b))
    &&& a.orden@ == b.orden@
    &&& a.incluir_ocultos == b.incluir_ocultos
}

/// Niveles de grupo con los mismos campos y quizá otros valores.
pub open spec fn niveles_de_mismos_campos(a: Seq<(&CampoDef, String)>, b: Seq<(&CampoDef, String)>) -> bool {
    &&& a.len() == b.len()
    &&& forall|i: int| 0 <= i < a.len() ==> *(#[trigger] a[i]).0 == *b[i].0
}

proof fn lema_grupo_sin_valores(alias: Seq<char>, a: Seq<(&CampoDef, String)>, b: Seq<(&CampoDef, String)>)
    requires
        niveles_de_mismos_campos(a, b),
    ensures
        grupo_spec(alias, a).0 == grupo_spec(alias, b).0,
        grupo_spec(alias, a).1.len() == grupo_spec(alias, b).1.len(),
    decreases a.len(),
{
    if a.len() > 0 {
        assert forall|i: int| 0 <= i < a.drop_last().len() implies *(#[trigger] a.drop_last()[i]).0
            == *b.drop_last()[i].0 by {
            assert(a.drop_last()[i] == a[i]);
            assert(b.drop_last()[i] == b[i]);
        }
        lema_grupo_sin_valores(alias, a.drop_last(), b.drop_last());
        assert(*a.last().0 == *b.last().0) by {
            assert(a.last() == a[a.len() - 1]);
            assert(b.last() == b[b.len() - 1]);
        }
    }
}

/// Los valores del usuario solo llegan a la consulta como parámetros: dos
/// peticiones que difieren solo en sus valores, con niveles de grupo de los
/// mismos campos, dan el mismo `WHERE`, el mismo `ORDER BY`, el mismo `JOIN`
/// y el mismo número de parámetros.
pub proof fn ley_consulta_parametrizada(
    campos: Seq<CampoDef>,
    a: QueryReq,
    b: QueryReq,
    na: Seq<(&CampoDef, String)>,
    nb: Seq<(&CampoDef, String)>,
)
    requires
        difieren_en_valores(a, b),
        niveles_de_mismos_campos(na, nb),
    ensures
        construido_spec(campos, a, na).0 == construido_spec(campos, b, nb).0,
        construido_spec(campos, a, na).1 == construido_spec(campos, b, nb).1,
        construido_spec(campos, a, na).2 == construido_spec(campos, b, nb).2,
        construido_spec(campos, a, na).3.len() == construido_spec(campos, b, nb).3.len(),
{
    let alias = nombre_tabla_spec(a.tabla);
    lema_grupo_sin_valores(alias, na, nb);
    ley_valores_como_parametros(campos, a.tabla, alias, a.condiciones@, b.condiciones@);
    assert(etapa_rapido(campos, a, alias).0 == etapa_rapido(campos, b, alias).0);
    assert(etapa_rapido(campos, a, alias).1.len() == etapa_rapido(campos, b, alias).1.len());
    assert(etapa_busqueda(a, alias).0 == etapa_busqueda(b, alias).0);
    assert(etapa_busqueda(a, alias).1.len() == etapa_busqueda(b, alias).1.len());
}

/// Una comparación sobre un campo que no es multidato se escribe con el
/// operador de SQL que tiene su mismo significado (`>=` para «mayor o
/// igual», etc.) entre la columna del campo y un parámetro con el valor.
pub proof fn ley_comparacion_con_su_operador(alias: Seq<char>, c: CampoDef, op: OpComp, valor: Seq<char>)
    requires
        c.tipo != TipoCampo::Multidato,
        operador_sql(op) is Some,
    ensures
        predicado_spec(alias, c, op, valor) == (
            columna(alias, c) + " "@ + operador_sql(op)->Some_0 + " ?"@,
            seq![valor_campo_spec(c.tipo, valor)],
        ),
{
    reveal_strlit(" = ?");
    reveal_strlit(" <> ?");
    reveal_strlit(" > ?");
    reveal_strlit(" < ?");
    reveal_strlit(" >= ?");
    reveal_strlit(" <= ?");
    reveal_strlit(" ");
    reveal_strlit(" ?");
    let col = columna(alias, c);
    let s = operador_sql(op)->Some_0;
    assert(col + " "@ + s + " ?"@ =~= col + (" "@ + s + " ?"@));
    match op {
        OpComp::Igual => assert(" "@ + s + " ?"@ =~= " = ?"@),
        OpComp::Distinto => assert(" "@ + s + " ?"@ =~= " <> ?"@),
        OpComp::Mayor => assert(" "@ + s + " ?"@ =~= " > ?"@),
        OpComp::Menor => assert(" "@ + s + " ?"@ =~= " < ?"@),
        OpComp::MayorIgual => assert(" "@ + s + " ?"@ =~= " >= ?"@),
        OpComp::MenorIgual => assert(" "@ + s + " ?"@ =~= " <= ?"@),
        _ => {},
    }
}

/// Las comparaciones de texto sobre un campo que no es multidato buscan el
/// valor como texto de la columna con `LIKE`: «contiene» con el valor entre
/// `%` y «empieza» con el valor seguido de `%`.
pub proof fn ley_comparacion_de_texto(alias: Seq<char>, c: CampoDef, valor: Seq<char>)
    requires
        c.tipo != TipoCampo::Multidato,
    ensures
        predicado_spec(alias, c, OpComp::Contiene, valor) == (
            "CAST("@ + columna(alias, c) + " AS TEXT) LIKE ?"@,
            seq![ParamSpec::Texto("%"@ + valor + "%"@)],
        ),
        predicado_spec(alias, c, OpComp::Empieza, valor) == (
            "CAST("@ + columna(alias, c) + " AS TEXT) LIKE ?"@,
            seq![ParamSpec::Texto(valor + "%"@)],
        ),
{
}

/// El `ORDER BY` solo atiende a los tres primeros niveles y acaba siempre en
/// el desempate por `_id_` ascendente: sin niveles de campo conocido es solo
/// ese desempate; si no, las partes de los niveles separadas por comas y,
/// tras otra coma, el desempate.
pub proof fn ley_orden_tres_niveles_y_desempate(
    campos: Seq<CampoDef>,
    tabla: Tabla,
    alias: Seq<char>,
    orden: Seq<OrdenCampo>,
)
    ensures
        orden_spec(campos, tabla, alias, orden) == orden_spec(
            campos,
            tabla,
            alias,
            orden.subrange(0, if orden.len() < 3 { orden.len() as int } else { 3 }),
        ),
        ({
            let ps = partes_orden(
                campos,
                tabla,
                alias,
                orden.subrange(0, if orden.len() < 3 { orden.len() as int } else { 3 }),
            );
            orden_spec(campos, tabla, alias, orden) == if ps.len() == 0 {
                alias + "._id_ ASC"@
            } else {
                unir(ps, ", "@) + ", "@ + alias + "._id_ ASC"@
            }
        }),
{
    let n: int = if orden.len() < 3 { orden.len() as int } else { 3 };
    let sub = orden.subrange(0, n);
    assert(sub.subrange(0, n) =~= sub);
    let ps = partes_orden(campos, tabla, alias, sub);
    let id = alias + "._id_ ASC"@;
    assert(ps.push(id).drop_last() =~= ps);
    assert(ps.push(id).last() == id);
    if ps.len() == 0 {
        assert(ps.push(id) =~= seq![id]);
    } else {
        assert(unir(ps, ", "@) + ", "@ + id =~= unir(ps, ", "@) + ", "@ + alias + "._id_ ASC"@);
    }
}

} // verus!
