//! Análisis sintáctico de fórmulas (precedencia de operadores, estilo Pratt).
//!
//! Una fórmula ya expandida se compila a un árbol [`Ast`]: constantes
//! numéricas, referencias a campos, signos, las cuatro operaciones (con `* /`
//! antes que `+ -`, asociativas por la izquierda), paréntesis y llamadas
//! `@FUNCION(arg)`. La evaluación numérica del árbol queda fuera de este
//! módulo.

use vstd::prelude::*;
use vstd::string::*;
use crate::calc::functions::{buscar_funcion, funcion_de, Funcion};
use crate::calc::lexer::{tokenizar, tokenizado, lexear, vista_tokens, Token, TipoToken};
use crate::texto::{cadena, caracteres, decimal, decimal_spec, concatenar, concatenar3};

verus! {

/// Operadores binarios soportados.
#[derive(Debug, Clone, Copy, PartialEq, Eq, Structural)]
pub enum OpBinario {
    Suma,
    Resta,
    Multiplicacion,
    Division,
}

/// Operadores unarios soportados.
#[derive(Debug, Clone, Copy, PartialEq, Eq, Structural)]
pub enum OpUnario {
    Negacion,
    Identidad,
}

/// Árbol de sintaxis abstracta de una fórmula compilada.
#[derive(Debug, PartialEq)]
pub enum Ast {
    /// Constante numérica, con el texto literal con que se escribió (dígitos
    /// con a lo sumo un punto decimal).
    Numero(String),
    /// Referencia a un campo por su nombre en la fórmula (con `_`).
    Campo(String),
    /// Operación unaria (signo).
    Unario { op: OpUnario, arg: Box<Ast> },
    /// Operación binaria aritmética.
    Binario { op: OpBinario, izq: Box<Ast>, der: Box<Ast> },
    /// Llamada a función (`@FECHA(arg)`), con su único argumento.
    Llamada { funcion: Funcion, arg: Box<Ast> },
}

/// Vista matemática de un [`Ast`]: los textos como secuencias de caracteres.
pub enum AstSpec {
    Numero(Seq<char>),
    Campo(Seq<char>),
    Unario(OpUnario, Box<AstSpec>),
    Binario(OpBinario, Box<AstSpec>, Box<AstSpec>),
    Llamada(Funcion, Box<AstSpec>),
}

/// Vista de un árbol.
pub open spec fn vista_ast(a: Ast) -> AstSpec
    decreases a,
{
    match a {
        Ast::Numero(s) => AstSpec::Numero(s@),
        Ast::Campo(s) => AstSpec::Campo(s@),
        Ast::Unario { op, arg } => AstSpec::Unario(op, Box::new(vista_ast(*arg))),
        Ast::Binario { op, izq, der } => AstSpec::Binario(
            op,
            Box::new(vista_ast(*izq)),
            Box::new(vista_ast(*der)),
        ),
        Ast::Llamada { funcion, arg } => AstSpec::Llamada(funcion, Box::new(vista_ast(*arg))),
    }
}

impl View for Ast {
    type V = AstSpec;

    open spec fn view(&self) -> AstSpec {
        vista_ast(*self)
    }
}

/// Vista de los tokens sobre los que trabaja el análisis.
pub type Toks = Seq<(Seq<char>, TipoToken)>;

/// Resultado parcial del análisis: árbol y posición siguiente, o mensaje.
pub type Parcial = Result<(AstSpec, int), Seq<char>>;

// ---------------------------------------------------------------------------
// Especificación
// ---------------------------------------------------------------------------

/// Constante numérica aceptada (la gramática decimal de `f64::from_str`
/// restringida a dígitos y puntos): solo dígitos y puntos, a lo sumo un
/// punto y al menos un dígito.
pub open spec fn literal_valido(s: Seq<char>) -> bool {
    &&& forall|i: int| 0 <= i < s.len() ==> ('0' <= #[trigger] s[i] <= '9' || s[i] == '.')
    &&& forall|i: int, j: int| 0 <= i < j < s.len() && s[i] == '.' ==> s[j] != '.'
    &&& exists|i: int| 0 <= i < s.len() && '0' <= #[trigger] s[i] <= '9'
}

/// Operador binario y potencia de enlace de un texto de operador.
pub open spec fn potencia(texto: Seq<char>) -> Option<(OpBinario, nat)> {
    if texto == seq!['+'] {
        Some((OpBinario::Suma, 1))
    } else if texto == seq!['-'] {
        Some((OpBinario::Resta, 1))
    } else if texto == seq!['*'] {
        Some((OpBinario::Multiplicacion, 2))
    } else if texto == seq!['/'] {
        Some((OpBinario::Division, 2))
    } else {
        None
    }
}

pub open spec fn msg_se_esperaba_expresion() -> Seq<char> {
    "se esperaba una expresión"@
}

pub open spec fn msg_numero_invalido(s: Seq<char>) -> Seq<char> {
    "número inválido: '"@ + s + "'"@
}

pub open spec fn msg_operador_inesperado(s: Seq<char>) -> Seq<char> {
    "operador inesperado: '"@ + s + "'"@
}

pub open spec fn msg_falta_nombre_funcion() -> Seq<char> {
    "se esperaba el nombre de la función tras '@'"@
}

pub open spec fn msg_funcion_desconocida(s: Seq<char>) -> Seq<char> {
    "función desconocida: '@"@ + s + "'"@
}

pub open spec fn msg_se_esperaba(texto: Seq<char>, hallado: Seq<char>) -> Seq<char> {
    "se esperaba '"@ + texto + "', se encontró '"@ + hallado + "'"@
}

pub open spec fn msg_se_esperaba_al_final(texto: Seq<char>) -> Seq<char> {
    "se esperaba '"@ + texto + "' al final de la fórmula"@
}

pub open spec fn msg_aridad(nombre: Seq<char>, esperados: nat, recibidos: nat) -> Seq<char> {
    "la función '@"@ + nombre + "' espera "@ + decimal_spec(esperados)
        + " argumento(s), recibió "@ + decimal_spec(recibidos)
}

pub open spec fn msg_formula_vacia() -> Seq<char> {
    "la fórmula está vacía"@
}

pub open spec fn msg_sobra(s: Seq<char>) -> Seq<char> {
    "token inesperado tras la expresión: '"@ + s + "'"@
}

/// Consumir el token de texto `texto` en la posición `p`.
pub open spec fn esperar_s(t: Toks, p: int, texto: Seq<char>) -> Result<int, Seq<char>> {
    if 0 <= p < t.len() {
        if t[p].0 == texto {
            Ok(p + 1)
        } else {
            Err(msg_se_esperaba(texto, t[p].0))
        }
    } else {
        Err(msg_se_esperaba_al_final(texto))
    }
}

/// El token en `p` tiene el texto `texto`.
pub open spec fn es_actual_s(t: Toks, p: int, texto: Seq<char>) -> bool {
    0 <= p < t.len() && t[p].0 == texto
}

/// Expresión con potencia mínima `min` a partir de `pos`: un término prefijo
/// seguido de los operadores binarios que liguen al menos con `min`.
pub open spec fn expr_s(t: Toks, pos: int, min: nat, fuel: nat) -> Parcial
    decreases fuel, 3nat,
{
    if fuel == 0 {
        Err(Seq::empty())
    } else {
        match prefijo_s(t, pos, (fuel - 1) as nat) {
            Err(e) => Err(e),
            Ok((izq, p)) => bucle_s(t, izq, p, min, (fuel - 1) as nat),
        }
    }
}

/// Bucle de operadores binarios: mientras el token en `p` sea un operador
/// binario con potencia `bp >= min`, lo consume, analiza el lado derecho con
/// potencia `bp + 1` (asociatividad por la izquierda) y combina.
pub open spec fn bucle_s(t: Toks, izq: AstSpec, p: int, min: nat, fuel: nat) -> Parcial
    decreases fuel, 2nat,
{
    if fuel == 0 {
        Err(Seq::empty())
    } else if 0 <= p < t.len() && t[p].1 == TipoToken::Operador && potencia(t[p].0) is Some
        && potencia(t[p].0)->Some_0.1 >= min {
        let (op, bp) = potencia(t[p].0)->Some_0;
        match expr_s(t, p + 1, bp + 1, (fuel - 1) as nat) {
            Err(e) => Err(e),
            Ok((der, p2)) => bucle_s(
                t,
                AstSpec::Binario(op, Box::new(izq), Box::new(der)),
                p2,
                min,
                (fuel - 1) as nat,
            ),
        }
    } else {
        Ok((izq, p))
    }
}

/// Término prefijo: número, campo, función, paréntesis o signo.
pub open spec fn prefijo_s(t: Toks, pos: int, fuel: nat) -> Parcial
    decreases fuel, 1nat,
{
    if fuel == 0 {
        Err(Seq::empty())
    } else if pos < 0 || pos >= t.len() {
        Err(msg_se_esperaba_expresion())
    } else {
        let texto = t[pos].0;
        match t[pos].1 {
            TipoToken::Numero => if literal_valido(texto) {
                Ok((AstSpec::Numero(texto), pos + 1))
            } else {
                Err(msg_numero_invalido(texto))
            },
            TipoToken::Nombre => Ok((AstSpec::Campo(texto), pos + 1)),
            TipoToken::IniciaFuncion => llamada_s(t, pos + 1, (fuel - 1) as nat),
            TipoToken::Operador => if texto == seq!['('] {
                match expr_s(t, pos + 1, 0, (fuel - 1) as nat) {
                    Err(e) => Err(e),
                    Ok((d, p2)) => match esperar_s(t, p2, seq![')']) {
                        Err(e) => Err(e),
                        Ok(p3) => Ok((d, p3)),
                    },
                }
            } else if texto == seq!['+'] {
                match prefijo_s(t, pos + 1, (fuel - 1) as nat) {
                    Err(e) => Err(e),
                    Ok((a, p2)) => Ok((AstSpec::Unario(OpUnario::Identidad, Box::new(a)), p2)),
                }
            } else if texto == seq!['-'] {
                match prefijo_s(t, pos + 1, (fuel - 1) as nat) {
                    Err(e) => Err(e),
                    Ok((a, p2)) => Ok((AstSpec::Unario(OpUnario::Negacion, Box::new(a)), p2)),
                }
            } else {
                Err(msg_operador_inesperado(texto))
            },
        }
    }
}

/// Lista de argumentos separados por comas desde `q`: el primero, cuántos
/// son y la posición siguiente.
pub open spec fn argumentos_s(t: Toks, q: int, fuel: nat) -> Result<(AstSpec, nat, int), Seq<char>>
    decreases fuel, 4nat,
{
    if fuel == 0 {
        Err(Seq::empty())
    } else {
        match expr_s(t, q, 0, (fuel - 1) as nat) {
            Err(e) => Err(e),
            Ok((a, p)) => if es_actual_s(t, p, seq![',']) {
                match argumentos_s(t, p + 1, (fuel - 1) as nat) {
                    Err(e) => Err(e),
                    Ok((_, n, p2)) => Ok((a, n + 1, p2)),
                }
            } else {
                Ok((a, 1, p))
            },
        }
    }
}

/// Llamada `NOMBRE( args )` tras el `@` (que ya se consumió).
pub open spec fn llamada_s(t: Toks, p: int, fuel: nat) -> Parcial
    decreases fuel, 0nat,
{
    if fuel == 0 {
        Err(Seq::empty())
    } else if p < 0 || p >= t.len() || t[p].1 != TipoToken::Nombre {
        Err(msg_falta_nombre_funcion())
    } else {
        let nombre = t[p].0;
        match funcion_de(nombre) {
            None => Err(msg_funcion_desconocida(nombre)),
            Some(f) => match esperar_s(t, p + 1, seq!['(']) {
                Err(e) => Err(e),
                Ok(p2) => if es_actual_s(t, p2, seq![')']) {
                    match esperar_s(t, p2, seq![')']) {
                        Err(e) => Err(e),
                        Ok(_) => Err(msg_aridad(nombre, f.aridad_spec(), 0)),
                    }
                } else {
                    match argumentos_s(t, p2, (fuel - 1) as nat) {
                        Err(e) => Err(e),
                        Ok((a, n, p3)) => match esperar_s(t, p3, seq![')']) {
                            Err(e) => Err(e),
                            Ok(p4) => if n != f.aridad_spec() {
                                Err(msg_aridad(nombre, f.aridad_spec(), n))
                            } else {
                                Ok((AstSpec::Llamada(f, Box::new(a)), p4))
                            },
                        },
                    }
                },
            },
        }
    }
}

/// Combustible suficiente para analizar `n` tokens.
pub open spec fn combustible(n: nat) -> nat {
    3 * n + 6
}

/// Resultado de compilar la fórmula `f`: el árbol, o el mensaje de error.
pub open spec fn compilacion(f: Seq<char>) -> Result<AstSpec, Seq<char>> {
    match lexear(f, 0) {
        Err(tok) => Err("dato inválido: "@ + crate::calc::lexer::mensaje_token_invalido(tok)),
        Ok(t) => if t.len() == 0 {
            Err(msg_formula_vacia())
        } else {
            match expr_s(t, 0, 0, combustible(t.len())) {
                Err(e) => Err(e),
                Ok((a, p)) => if p != t.len() {
                    Err(msg_sobra(t[p].0))
                } else {
                    Ok(a)
                },
            }
        },
    }
}

/// Vista de un resultado parcial del análisis.
pub open spec fn vista_parcial(r: Result<(Ast, usize), String>) -> Parcial {
    match r {
        Ok((a, p)) => Ok((a@, p as int)),
        Err(e) => Err(e@),
    }
}

/// Vista del resultado de compilar.
pub open spec fn vista_compilado(r: Result<Ast, String>) -> Result<AstSpec, Seq<char>> {
    match r {
        Ok(a) => Ok(a@),
        Err(e) => Err(e@),
    }
}

/// Vista del resultado de analizar una lista de argumentos.
pub open spec fn vista_args(r: Result<(Ast, usize, usize), String>) -> Result<(AstSpec, nat, int), Seq<char>> {
    match r {
        Ok((a, k, p)) => Ok((a@, k as nat, p as int)),
        Err(e) => Err(e@),
    }
}

// ---------------------------------------------------------------------------
// Implementación
// ---------------------------------------------------------------------------

/// Token con su texto como caracteres.
struct Tk {
    texto: Vec<char>,
    tipo: TipoToken,
}

spec fn vista_tks(v: Seq<Tk>) -> Toks {
    v.map_values(|k: Tk| (k.texto@, k.tipo))
}

/// Analizador: los tokens de la fórmula.
struct Parser {
    tokens: Vec<Tk>,
}

impl Parser {
    spec fn t(&self) -> Toks {
        vista_tks(self.tokens@)
    }

    /// `true` si el token en `p` tiene exactamente el texto de un carácter `c`.
    fn es_actual(&self, p: usize, c: char) -> (r: bool)
        ensures
            r == es_actual_s(self.t(), p as int, seq![c]),
    {
        if p < self.tokens.len() {
            let tx = &self.tokens[p].texto;
            let r = tx.len() == 1 && tx[0] == c;
            proof {
                if r {
                    assert(tx@ =~= seq![c]);
                }
            }
            r
        } else {
            false
        }
    }

    /// Consume el token `c` en la posición `p`.
    fn esperar(&self, p: usize, c: char) -> (r: Result<usize, String>)
        ensures
            match esperar_s(self.t(), p as int, seq![c]) {
                Ok(q) => r matches Ok(q2) && q2 == q,
                Err(m) => r matches Err(m2) && m2@ == m,
            },
    {
        let ghost t = self.t();
        if p < self.tokens.len() {
            if self.es_actual(p, c) {
                Ok(p + 1)
            } else {
                let mut uno: Vec<char> = Vec::new();
                uno.push(c);
                let cu = cadena(&uno);
                let hallado = cadena(&self.tokens[p].texto);
                let mut m = concatenar3("se esperaba '", cu.as_str(), "', se encontró '");
                m.append(hallado.as_str());
                m.append("'");
                proof {
                    assert(uno@ =~= seq![c]);
                }
                Err(m)
            }
        } else {
            let mut uno: Vec<char> = Vec::new();
            uno.push(c);
            let cu = cadena(&uno);
            proof {
                assert(uno@ =~= seq![c]);
            }
            Err(concatenar3("se esperaba '", cu.as_str(), "' al final de la fórmula"))
        }
    }

    /// Potencia de enlace del operador binario en `p`, si lo hay.
    fn potencia_binaria(&self, p: usize) -> (r: Option<(OpBinario, u8)>)
        requires
            p < self.tokens.len(),
        ensures
            match potencia(self.t()[p as int].0) {
                Some((op, bp)) => r matches Some((op2, bp2)) && op2 == op && bp2 == bp,
                None => r is None,
            },
    {
        if self.es_actual(p, '+') {
            Some((OpBinario::Suma, 1))
        } else if self.es_actual(p, '-') {
            Some((OpBinario::Resta, 1))
        } else if self.es_actual(p, '*') {
            Some((OpBinario::Multiplicacion, 2))
        } else if self.es_actual(p, '/') {
            Some((OpBinario::Division, 2))
        } else {
            None
        }
    }

    /// La vista de los tokens tiene su longitud y su contenido.
    proof fn lema_vista(&self)
        ensures
            self.t().len() == self.tokens@.len(),
            forall|i: int|
                0 <= i < self.tokens@.len() ==> #[trigger] self.t()[i] == (
                    self.tokens@[i].texto@,
                    self.tokens@[i].tipo,
                ),
    {
    }

    /// Expresión con potencia mínima `min` desde `pos`.
    fn expresion(&self, pos: usize, min: u8) -> (r: Result<(Ast, usize), String>)
        requires
            pos <= self.tokens.len(),
            min <= 3,
        ensures
            r matches Ok((_, p)) ==> pos < p <= self.tokens.len(),
            forall|f: nat|
                f >= 3 * (self.tokens.len() - pos) + 6 ==> #[trigger] expr_s(
                    self.t(),
                    pos as int,
                    min as nat,
                    f,
                ) == vista_parcial(r),
        decreases self.tokens.len() - pos, 3nat,
    {
        let ghost t = self.t();
        let ghost n = self.tokens.len();
        let rp = self.prefijo(pos);
        let ghost vp = vista_parcial(rp);
        match rp {
            Err(e) => {
                let r: Result<(Ast, usize), String> = Err(e);
                proof {
                    assert forall|f: nat| f >= 3 * (n - pos) + 6 implies #[trigger] expr_s(
                        t,
                        pos as int,
                        min as nat,
                        f,
                    ) == vista_parcial(r) by {
                        assert(prefijo_s(t, pos as int, (f - 1) as nat) == vp);
                    }
                }
                r
            },
            Ok((izq, p)) => {
                let ghost vi = izq@;
                let r = self.bucle(izq, p, min);
                proof {
                    assert forall|f: nat| f >= 3 * (n - pos) + 6 implies #[trigger] expr_s(
                        t,
                        pos as int,
                        min as nat,
                        f,
                    ) == vista_parcial(r) by {
                        assert(prefijo_s(t, pos as int, (f - 1) as nat) == vp);
                        assert(bucle_s(t, vi, p as int, min as nat, (f - 1) as nat) == vista_parcial(r));
                    }
                }
                r
            },
        }
    }

    /// Bucle de operadores binarios a partir de `p`, con el lado izquierdo `izq`.
    fn bucle(&self, izq: Ast, p: usize, min: u8) -> (r: Result<(Ast, usize), String>)
        requires
            p <= self.tokens.len(),
            min <= 3,
        ensures
            r matches Ok((_, q)) ==> p <= q <= self.tokens.len(),
            forall|f: nat|
                f >= 3 * (self.tokens.len() - p) + 4 ==> #[trigger] bucle_s(
                    self.t(),
                    izq@,
                    p as int,
                    min as nat,
                    f,
                ) == vista_parcial(r),
        decreases self.tokens.len() - p, 1nat,
    {
        let ghost t = self.t();
        let ghost n = self.tokens.len();
        let ghost vi = izq@;
        proof {
            self.lema_vista();
        }
        if p < self.tokens.len() && self.tokens[p].tipo == TipoToken::Operador {
            match self.potencia_binaria(p) {
                Some((op, bp)) => {
                    if bp >= min {
                        let rd = self.expresion(p + 1, bp + 1);
                        let ghost vd = vista_parcial(rd);
                        match rd {
                            Err(e) => {
                                let r: Result<(Ast, usize), String> = Err(e);
                                proof {
                                    assert forall|f: nat| f >= 3 * (n - p) + 4 implies #[trigger] bucle_s(
                                        t,
                                        vi,
                                        p as int,
                                        min as nat,
                                        f,
                                    ) == vista_parcial(r) by {
                                        assert(expr_s(t, p + 1, (bp + 1) as nat, (f - 1) as nat) == vd);
                                    }
                                }
                                return r;
                            },
                            Ok((der, p2)) => {
                                let ghost vder = der@;
                                let nuevo = Ast::Binario { op, izq: Box::new(izq), der: Box::new(der) };
                                let ghost vn = AstSpec::Binario(op, Box::new(vi), Box::new(vder));
                                assert(nuevo@ == vn);
                                let r = self.bucle(nuevo, p2, min);
                                proof {
                                    assert forall|f: nat| f >= 3 * (n - p) + 4 implies #[trigger] bucle_s(
                                        t,
                                        vi,
                                        p as int,
                                        min as nat,
                                        f,
                                    ) == vista_parcial(r) by {
                                        assert(expr_s(t, p + 1, (bp + 1) as nat, (f - 1) as nat) == vd);
                                        assert(bucle_s(t, vn, p2 as int, min as nat, (f - 1) as nat)
                                            == vista_parcial(r));
                                    }
                                }
                                return r;
                            },
                        }
                    }
                },
                None => {},
            }
        }
        Ok((izq, p))
    }

    /// Término prefijo en `pos`.
    fn prefijo(&self, pos: usize) -> (r: Result<(Ast, usize), String>)
        requires
            pos <= self.tokens.len(),
        ensures
            r matches Ok((_, p)) ==> pos < p <= self.tokens.len(),
            forall|f: nat|
                f >= 3 * (self.tokens.len() - pos) + 5 ==> #[trigger] prefijo_s(
                    self.t(),
                    pos as int,
                    f,
                ) == vista_parcial(r),
        decreases self.tokens.len() - pos, 2nat,
    {
        let ghost t = self.t();
        let ghost n = self.tokens.len();
        proof {
            self.lema_vista();
        }
        if pos >= self.tokens.len() {
            return Err(String::from_str("se esperaba una expresión"));
        }
        let tk = &self.tokens[pos];
        match tk.tipo {
            TipoToken::Numero => {
                if literal_ok(&tk.texto) {
                    Ok((Ast::Numero(cadena(&tk.texto)), pos + 1))
                } else {
                    let s = cadena(&tk.texto);
                    Err(concatenar3("número inválido: '", s.as_str(), "'"))
                }
            },
            TipoToken::Nombre => Ok((Ast::Campo(cadena(&tk.texto)), pos + 1)),
            TipoToken::IniciaFuncion => {
                let r = self.llamada(pos + 1);
                proof {
                    assert forall|f: nat| f >= 3 * (n - pos) + 5 implies #[trigger] prefijo_s(
                        t,
                        pos as int,
                        f,
                    ) == vista_parcial(r) by {
                        assert(llamada_s(t, pos + 1, (f - 1) as nat) == vista_parcial(r));
                    }
                }
                r
            },
            TipoToken::Operador => {
                if self.es_actual(pos, '(') {
                    let re = self.expresion(pos + 1, 0);
                    let ghost ve = vista_parcial(re);
                    let r: Result<(Ast, usize), String> = match re {
                        Err(e) => Err(e),
                        Ok((d, p2)) => match self.esperar(p2, ')') {
                            Ok(p3) => Ok((d, p3)),
                            Err(e) => Err(e),
                        },
                    };
                    proof {
                        assert forall|f: nat| f >= 3 * (n - pos) + 5 implies #[trigger] prefijo_s(
                            t,
                            pos as int,
                            f,
                        ) == vista_parcial(r) by {
                            assert(expr_s(t, pos + 1, 0, (f - 1) as nat) == ve);
                        }
                    }
                    r
                } else if self.es_actual(pos, '+') || self.es_actual(pos, '-') {
                    let op = if self.es_actual(pos, '+') {
                        OpUnario::Identidad
                    } else {
                        OpUnario::Negacion
                    };
                    let ra = self.prefijo(pos + 1);
                    let ghost va = vista_parcial(ra);
                    let r: Result<(Ast, usize), String> = match ra {
                        Err(e) => Err(e),
                        Ok((a, p2)) => Ok((Ast::Unario { op, arg: Box::new(a) }, p2)),
                    };
                    proof {
                        assert forall|f: nat| f >= 3 * (n - pos) + 5 implies #[trigger] prefijo_s(
                            t,
                            pos as int,
                            f,
                        ) == vista_parcial(r) by {
                            assert(prefijo_s(t, pos + 1, (f - 1) as nat) == va);
                        }
                    }
                    r
                } else {
                    let s = cadena(&tk.texto);
                    Err(concatenar3("operador inesperado: '", s.as_str(), "'"))
                }
            },
        }
    }

    /// Argumentos separados por comas desde `q`: el primero, cuántos son y
    /// la posición siguiente.
    fn argumentos(&self, q: usize) -> (r: Result<(Ast, usize, usize), String>)
        requires
            q <= self.tokens.len(),
        ensures
            r matches Ok((_, k, p)) ==> q < p <= self.tokens.len() && 1 <= k <= p - q,
            forall|f: nat|
                f >= 3 * (self.tokens.len() - q) + 7 ==> #[trigger] argumentos_s(
                    self.t(),
                    q as int,
                    f,
                ) == vista_args(r),
        decreases self.tokens.len() - q, 4nat,
    {
        let ghost t = self.t();
        let ghost n = self.tokens.len();
        let re = self.expresion(q, 0);
        let ghost ve = vista_parcial(re);
        let r: Result<(Ast, usize, usize), String> = match re {
            Err(e) => Err(e),
            Ok((a, p)) => {
                if self.es_actual(p, ',') {
                    let ra = self.argumentos(p + 1);
                    let ghost vr = vista_args(ra);
                    let r2: Result<(Ast, usize, usize), String> = match ra {
                        Ok((_, k, p2)) => Ok((a, k + 1, p2)),
                        Err(e) => Err(e),
                    };
                    proof {
                        assert forall|f: nat| f >= 3 * (n - q) + 7 implies #[trigger] argumentos_s(
                            t,
                            q as int,
                            f,
                        ) == vista_args(r2) by {
                            assert(expr_s(t, q as int, 0, (f - 1) as nat) == ve);
                            assert(argumentos_s(t, p + 1, (f - 1) as nat) == vr);
                        }
                    }
                    r2
                } else {
                    Ok((a, 1, p))
                }
            },
        };
        proof {
            assert forall|f: nat| f >= 3 * (n - q) + 7 implies #[trigger] argumentos_s(
                t,
                q as int,
                f,
            ) == vista_args(r) by {
                assert(expr_s(t, q as int, 0, (f - 1) as nat) == ve);
            }
        }
        r
    }

    /// Llamada `NOMBRE( args )` en `p` (el `@` ya se consumió).
    fn llamada(&self, p: usize) -> (r: Result<(Ast, usize), String>)
        requires
            p <= self.tokens.len(),
        ensures
            r matches Ok((_, q)) ==> p < q <= self.tokens.len(),
            forall|f: nat|
                f >= 3 * (self.tokens.len() - p) + 7 ==> #[trigger] llamada_s(
                    self.t(),
                    p as int,
                    f,
                ) == vista_parcial(r),
        decreases self.tokens.len() - p, 0nat,
    {
        let ghost t = self.t();
        let ghost n = self.tokens.len();
        proof {
            self.lema_vista();
        }
        if p >= self.tokens.len() || self.tokens[p].tipo != TipoToken::Nombre {
            return Err(String::from_str("se esperaba el nombre de la función tras '@'"));
        }
        let nombre = cadena(&self.tokens[p].texto);
        let funcion = match buscar_funcion(nombre.as_str()) {
            Some(f) => f,
            None => {
                return Err(concatenar3("función desconocida: '@", nombre.as_str(), "'"));
            },
        };
        let p2 = match self.esperar(p + 1, '(') {
            Ok(q) => q,
            Err(e) => {
                return Err(e);
            },
        };
        if self.es_actual(p2, ')') {
            return Err(mensaje_aridad(&nombre, funcion.aridad(), 0));
        }
        let ra = self.argumentos(p2);
        let ghost vr = vista_args(ra);
        let r: Result<(Ast, usize), String> = match ra {
            Err(e) => Err(e),
            Ok((a, k, p3)) => match self.esperar(p3, ')') {
                Err(e) => Err(e),
                Ok(p4) => if k != funcion.aridad() {
                    Err(mensaje_aridad(&nombre, funcion.aridad(), k))
                } else {
                    Ok((Ast::Llamada { funcion, arg: Box::new(a) }, p4))
                },
            },
        };
        proof {
            assert forall|f: nat| f >= 3 * (n - p) + 7 implies #[trigger] llamada_s(
                t,
                p as int,
                f,
            ) == vista_parcial(r) by {
                assert(argumentos_s(t, p2 as int, (f - 1) as nat) == vr);
            }
        }
        r
    }
}

/// Mensaje de aridad incorrecta.
fn mensaje_aridad(nombre: &String, esperados: usize, recibidos: usize) -> (m: String)
    ensures
        m@ == msg_aridad(nombre@, esperados as nat, recibidos as nat),
{
    let de = cadena(&decimal(esperados as u64));
    let dr = cadena(&decimal(recibidos as u64));
    let mut m = concatenar3("la función '@", nombre.as_str(), "' espera ");
    m.append(de.as_str());
    m.append(" argumento(s), recibió ");
    m.append(dr.as_str());
    m
}

/// Comprueba que un texto sea una constante numérica aceptada.
pub fn literal_ok(s: &Vec<char>) -> (r: bool)
    ensures
        r == literal_valido(s@),
{
    let mut puntos: usize = 0;
    let mut digitos: usize = 0;
    let mut i: usize = 0;
    let ghost mut pos_punto: int = -1;
    while i < s.len()
        invariant
            i <= s.len(),
            puntos <= 1,
            digitos <= i,
            forall|k: int| 0 <= k < i ==> ('0' <= #[trigger] s@[k] <= '9' || s@[k] == '.'),
            puntos == 0 ==> forall|k: int| 0 <= k < i ==> s@[k] != '.',
            puntos == 1 ==> 0 <= pos_punto < i && s@[pos_punto] == '.' && forall|k: int|
                0 <= k < i && k != pos_punto ==> s@[k] != '.',
            digitos == 0 ==> forall|k: int| 0 <= k < i ==> !('0' <= #[trigger] s@[k] <= '9'),
            digitos > 0 ==> exists|k: int| 0 <= k < i && '0' <= #[trigger] s@[k] <= '9',
        decreases s.len() - i,
    {
        let c = s[i];
        if '0' <= c && c <= '9' {
            digitos += 1;
        } else if c == '.' {
            if puntos == 1 {
                proof {
                    assert(!literal_valido(s@)) by {
                        assert(s@[pos_punto] == '.' && s@[i as int] == '.');
                    }
                }
                return false;
            }
            puntos = 1;
            proof {
                pos_punto = i as int;
            }
        } else {
            return false;
        }
        i += 1;
    }
    digitos > 0
}

/// Compila una fórmula (ya expandida) a su árbol. Devuelve el mensaje de error
/// en español si la fórmula no se puede tokenizar o su sintaxis es inválida.
pub fn compilar(formula: &str) -> (r: Result<Ast, String>)
    ensures
        vista_compilado(r) == compilacion(formula@),
{
    let toks = match tokenizar(formula) {
        Ok(t) => t,
        Err(e) => {
            return Err(e.mensaje());
        },
    };
    if toks.len() == 0 {
        return Err(String::from_str("la fórmula está vacía"));
    }
    let mut tks: Vec<Tk> = Vec::new();
    let mut i: usize = 0;
    while i < toks.len()
        invariant
            i <= toks.len(),
            tks@.len() == i,
            forall|j: int|
                0 <= j < i ==> (#[trigger] tks@[j]).texto@ == toks@[j].texto@ && tks@[j].tipo
                    == toks@[j].tipo,
        decreases toks.len() - i,
    {
        let texto = caracteres(toks[i].texto.as_str());
        tks.push(Tk { texto, tipo: toks[i].tipo });
        i += 1;
    }
    assert(vista_tks(tks@) =~= vista_tokens(toks@)) by {
        assert forall|j: int| 0 <= j < tks@.len() implies #[trigger] vista_tks(tks@)[j]
            == vista_tokens(toks@)[j] by {
            assert(tks@[j].texto@ == toks@[j].texto@);
        }
    }
    let parser = Parser { tokens: tks };
    let (ast, p) = match parser.expresion(0, 0) {
        Ok(x) => x,
        Err(e) => {
            return Err(e);
        },
    };
    if p != parser.tokens.len() {
        let s = cadena(&parser.tokens[p].texto);
        return Err(concatenar3("token inesperado tras la expresión: '", s.as_str(), "'"));
    }
    Ok(ast)
}

// ---------------------------------------------------------------------------
// Precedencia de los operadores
// ---------------------------------------------------------------------------

/// `o` es el operador aditivo `op` (`+` suma, `-` resta).
pub open spec fn aditivo(o: Seq<char>, op: OpBinario) -> bool {
    (o == seq!['+'] && op == OpBinario::Suma) || (o == seq!['-'] && op == OpBinario::Resta)
}

/// `o` es el operador multiplicativo `op` (`*` multiplica, `/` divide).
pub open spec fn multiplicativo(o: Seq<char>, op: OpBinario) -> bool {
    (o == seq!['*'] && op == OpBinario::Multiplicacion) || (o == seq!['/'] && op == OpBinario::Division)
}

proof fn lema_potencias()
    ensures
        potencia(seq!['+']) == Some((OpBinario::Suma, 1nat)),
        potencia(seq!['-']) == Some((OpBinario::Resta, 1nat)),
        potencia(seq!['*']) == Some((OpBinario::Multiplicacion, 2nat)),
        potencia(seq!['/']) == Some((OpBinario::Division, 2nat)),
{
    assert(seq!['+'][0] == '+' && seq!['-'][0] == '-' && seq!['*'][0] == '*' && seq!['/'][0] == '/');
    assert(seq!['-'] != seq!['+']);
    assert(seq!['*'] != seq!['+'] && seq!['*'] != seq!['-']);
    assert(seq!['/'] != seq!['+'] && seq!['/'] != seq!['-'] && seq!['/'] != seq!['*']);
}

/// Los tokens `x o1 y o2 z` de tres nombres y dos operadores.
pub open spec fn tres_nombres(x: Seq<char>, o1: Seq<char>, y: Seq<char>, o2: Seq<char>, z: Seq<char>) -> Toks {
    seq![
        (x, TipoToken::Nombre),
        (o1, TipoToken::Operador),
        (y, TipoToken::Nombre),
        (o2, TipoToken::Operador),
        (z, TipoToken::Nombre),
    ]
}

/// Un operador multiplicativo liga más fuerte que uno aditivo que lo precede:
/// la fórmula `x - y / z` (o con `+` y `*`) se compila como `x - (y / z)`.
pub proof fn ley_multiplicativo_liga_mas_tras_aditivo(
    f: Seq<char>,
    x: Seq<char>,
    o1: Seq<char>,
    y: Seq<char>,
    o2: Seq<char>,
    z: Seq<char>,
    a: OpBinario,
    m: OpBinario,
)
    requires
        lexear(f, 0) == Ok::<Toks, Seq<char>>(tres_nombres(x, o1, y, o2, z)),
        aditivo(o1, a),
        multiplicativo(o2, m),
    ensures
        compilacion(f) == Ok::<AstSpec, Seq<char>>(
            AstSpec::Binario(
                a,
                Box::new(AstSpec::Campo(x)),
                Box::new(AstSpec::Binario(m, Box::new(AstSpec::Campo(y)), Box::new(AstSpec::Campo(z)))),
            ),
        ),
{
    let t = tres_nombres(x, o1, y, o2, z);
    let cx = AstSpec::Campo(x);
    let cy = AstSpec::Campo(y);
    let cz = AstSpec::Campo(z);
    let yz = AstSpec::Binario(m, Box::new(cy), Box::new(cz));
    lema_potencias();
    assert(potencia(o1) == Some((a, 1nat)));
    assert(potencia(o2) == Some((m, 2nat)));
    assert(prefijo_s(t, 4, 16) == Ok::<(AstSpec, int), Seq<char>>((cz, 5)));
    assert(bucle_s(t, cz, 5, 3, 16) == Ok::<(AstSpec, int), Seq<char>>((cz, 5)));
    assert(expr_s(t, 4, 3, 17) == Ok::<(AstSpec, int), Seq<char>>((cz, 5)));
    assert(bucle_s(t, yz, 5, 2, 17) == Ok::<(AstSpec, int), Seq<char>>((yz, 5)));
    assert(prefijo_s(t, 2, 18) == Ok::<(AstSpec, int), Seq<char>>((cy, 3)));
    assert(bucle_s(t, cy, 3, 2, 18) == Ok::<(AstSpec, int), Seq<char>>((yz, 5)));
    assert(expr_s(t, 2, 2, 19) == Ok::<(AstSpec, int), Seq<char>>((yz, 5)));
    let todo = AstSpec::Binario(a, Box::new(cx), Box::new(yz));
    assert(bucle_s(t, todo, 5, 0, 19) == Ok::<(AstSpec, int), Seq<char>>((todo, 5)));
    assert(prefijo_s(t, 0, 20) == Ok::<(AstSpec, int), Seq<char>>((cx, 1)));
    assert(bucle_s(t, cx, 1, 0, 20) == Ok::<(AstSpec, int), Seq<char>>((todo, 5)));
    assert(expr_s(t, 0, 0, combustible(5)) == Ok::<(AstSpec, int), Seq<char>>((todo, 5)));
}

/// Un operador multiplicativo liga más fuerte que uno aditivo que lo sigue:
/// la fórmula `x / y - z` (o con `*` y `+`) se compila como `(x / y) - z`.
pub proof fn ley_multiplicativo_liga_mas_ante_aditivo(
    f: Seq<char>,
    x: Seq<char>,
    o1: Seq<char>,
    y: Seq<char>,
    o2: Seq<char>,
    z: Seq<char>,
    m: OpBinario,
    a: OpBinario,
)
    requires
        lexear(f, 0) == Ok::<Toks, Seq<char>>(tres_nombres(x, o1, y, o2, z)),
        multiplicativo(o1, m),
        aditivo(o2, a),
    ensures
        compilacion(f) == Ok::<AstSpec, Seq<char>>(
            AstSpec::Binario(
                a,
                Box::new(AstSpec::Binario(m, Box::new(AstSpec::Campo(x)), Box::new(AstSpec::Campo(y)))),
                Box::new(AstSpec::Campo(z)),
            ),
        ),
{
    let t = tres_nombres(x, o1, y, o2, z);
    let cx = AstSpec::Campo(x);
    let cy = AstSpec::Campo(y);
    let cz = AstSpec::Campo(z);
    let xy = AstSpec::Binario(m, Box::new(cx), Box::new(cy));
    let todo = AstSpec::Binario(a, Box::new(xy), Box::new(cz));
    lema_potencias();
    assert(potencia(o1) == Some((m, 2nat)));
    assert(potencia(o2) == Some((a, 1nat)));
    assert(prefijo_s(t, 2, 18) == Ok::<(AstSpec, int), Seq<char>>((cy, 3)));
    assert(bucle_s(t, cy, 3, 3, 18) == Ok::<(AstSpec, int), Seq<char>>((cy, 3)));
    assert(expr_s(t, 2, 3, 19) == Ok::<(AstSpec, int), Seq<char>>((cy, 3)));
    assert(prefijo_s(t, 4, 17) == Ok::<(AstSpec, int), Seq<char>>((cz, 5)));
    assert(bucle_s(t, cz, 5, 2, 17) == Ok::<(AstSpec, int), Seq<char>>((cz, 5)));
    assert(expr_s(t, 4, 2, 18) == Ok::<(AstSpec, int), Seq<char>>((cz, 5)));
    assert(bucle_s(t, todo, 5, 0, 18) == Ok::<(AstSpec, int), Seq<char>>((todo, 5)));
    assert(bucle_s(t, xy, 3, 0, 19) == Ok::<(AstSpec, int), Seq<char>>((todo, 5)));
    assert(prefijo_s(t, 0, 20) == Ok::<(AstSpec, int), Seq<char>>((cx, 1)));
    assert(bucle_s(t, cx, 1, 0, 20) == Ok::<(AstSpec, int), Seq<char>>((todo, 5)));
    assert(expr_s(t, 0, 0, combustible(5)) == Ok::<(AstSpec, int), Seq<char>>((todo, 5)));
}

/// Dos operadores del mismo nivel (los dos aditivos o los dos
/// multiplicativos) asocian por la izquierda: `x - y + z` es `(x - y) + z` y
/// `x / y * z` es `(x / y) * z`.
pub proof fn ley_mismo_nivel_asocia_por_la_izquierda(
    f: Seq<char>,
    x: Seq<char>,
    o1: Seq<char>,
    y: Seq<char>,
    o2: Seq<char>,
    z: Seq<char>,
    p1: OpBinario,
    p2: OpBinario,
)
    requires
        lexear(f, 0) == Ok::<Toks, Seq<char>>(tres_nombres(x, o1, y, o2, z)),
        (aditivo(o1, p1) && aditivo(o2, p2)) || (multiplicativo(o1, p1) && multiplicativo(o2, p2)),
    ensures
        compilacion(f) == Ok::<AstSpec, Seq<char>>(
            AstSpec::Binario(
                p2,
                Box::new(AstSpec::Binario(p1, Box::new(AstSpec::Campo(x)), Box::new(AstSpec::Campo(y)))),
                Box::new(AstSpec::Campo(z)),
            ),
        ),
{
    let t = tres_nombres(x, o1, y, o2, z);
    let cx = AstSpec::Campo(x);
    let cy = AstSpec::Campo(y);
    let cz = AstSpec::Campo(z);
    let xy = AstSpec::Binario(p1, Box::new(cx), Box::new(cy));
    let todo = AstSpec::Binario(p2, Box::new(xy), Box::new(cz));
    lema_potencias();
    let b: nat = if aditivo(o1, p1) { 1 } else { 2 };
    assert(potencia(o1) == Some((p1, b)));
    assert(potencia(o2) == Some((p2, b)));
    assert(prefijo_s(t, 2, 18) == Ok::<(AstSpec, int), Seq<char>>((cy, 3)));
    assert(bucle_s(t, cy, 3, b + 1, 18) == Ok::<(AstSpec, int), Seq<char>>((cy, 3)));
    assert(expr_s(t, 2, b + 1, 19) == Ok::<(AstSpec, int), Seq<char>>((cy, 3)));
    assert(prefijo_s(t, 4, 17) == Ok::<(AstSpec, int), Seq<char>>((cz, 5)));
    assert(bucle_s(t, cz, 5, b + 1, 17) == Ok::<(AstSpec, int), Seq<char>>((cz, 5)));
    assert(expr_s(t, 4, b + 1, 18) == Ok::<(AstSpec, int), Seq<char>>((cz, 5)));
    assert(bucle_s(t, todo, 5, 0, 18) == Ok::<(AstSpec, int), Seq<char>>((todo, 5)));
    assert(bucle_s(t, xy, 3, 0, 19) == Ok::<(AstSpec, int), Seq<char>>((todo, 5)));
    assert(prefijo_s(t, 0, 20) == Ok::<(AstSpec, int), Seq<char>>((cx, 1)));
    assert(bucle_s(t, cx, 1, 0, 20) == Ok::<(AstSpec, int), Seq<char>>((todo, 5)));
    assert(expr_s(t, 0, 0, combustible(5)) == Ok::<(AstSpec, int), Seq<char>>((todo, 5)));
}

} // verus!
