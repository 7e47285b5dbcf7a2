//! Modelo de dominio: campos configurables, consultas, grupos, categorías y
//! datos del álbum, compartidos por el resto de la biblioteca.
//!
//! Los valores dinámicos de los registros (que incluyen números de coma
//! flotante) y la serialización hacia el frontend quedan fuera de la
//! biblioteca verificada.

use vstd::prelude::*;

verus! {

/// Tipo de un campo configurable. En la base Jet se guarda como un byte:
/// 0 texto, 1 numérico, 2 moneda, 3 fecha, 4 calculado, 5 multidato.
#[derive(Debug, Clone, Copy, PartialEq, Eq, Hash, Structural)]
pub enum TipoCampo {
    Texto,
    Numerico,
    Moneda,
    Fecha,
    Calculado,
    Multidato,
}

/// El tipo de campo que codifica el byte `n` de Jet, si alguno.
pub open spec fn tipo_de_jet(n: int) -> Option<TipoCampo> {
    if n == 0 {
        Some(TipoCampo::Texto)
    } else if n == 1 {
        Some(TipoCampo::Numerico)
    } else if n == 2 {
        Some(TipoCampo::Moneda)
    } else if n == 3 {
        Some(TipoCampo::Fecha)
    } else if n == 4 {
        Some(TipoCampo::Calculado)
    } else if n == 5 {
        Some(TipoCampo::Multidato)
    } else {
        None
    }
}

/// Tipo de columna SQLite de cada tipo de campo: el texto y la fecha (ISO,
/// ordenable) en `TEXT`; los números, la moneda y el resultado de un
/// calculado en `REAL`; el multidato guarda su conteo en `INTEGER`.
pub open spec fn tipo_sqlite(t: TipoCampo) -> Seq<char> {
    match t {
        TipoCampo::Texto => "TEXT"@,
        TipoCampo::Numerico => "REAL"@,
        TipoCampo::Moneda => "REAL"@,
        TipoCampo::Fecha => "TEXT"@,
        TipoCampo::Calculado => "REAL"@,
        TipoCampo::Multidato => "INTEGER"@,
    }
}

impl TipoCampo {
    /// Conversión desde el byte `Tipo` de la tabla `propiedades` de Jet.
    pub fn from_jet(n: i64) -> (r: Option<TipoCampo>)
        ensures
            r == tipo_de_jet(n as int),
    {
        match n {
            0 => Some(TipoCampo::Texto),
            1 => Some(TipoCampo::Numerico),
            2 => Some(TipoCampo::Moneda),
            3 => Some(TipoCampo::Fecha),
            4 => Some(TipoCampo::Calculado),
            5 => Some(TipoCampo::Multidato),
            _ => None,
        }
    }

    /// Tipo de columna SQLite para este tipo de campo (sin límite de longitud).
    pub fn sqlite_type(&self) -> (r: &'static str)
        ensures
            r@ == tipo_sqlite(*self),
    {
        proof {
            reveal_strlit("TEXT");
            reveal_strlit("REAL");
            reveal_strlit("INTEGER");
        }
        match self {
            TipoCampo::Texto => "TEXT",
            TipoCampo::Numerico => "REAL",
            TipoCampo::Moneda => "REAL",
            TipoCampo::Fecha => "TEXT",
            TipoCampo::Calculado => "REAL",
            TipoCampo::Multidato => "INTEGER",
        }
    }
}

/// Tabla destino de un campo o registro.
#[derive(Debug, Clone, Copy, PartialEq, Eq, Hash, Structural)]
pub enum Tabla {
    Principal,
    Variantes,
}

/// Nombre SQL de cada tabla.
pub open spec fn nombre_tabla_spec(t: Tabla) -> Seq<char> {
    match t {
        Tabla::Principal => "principal"@,
        Tabla::Variantes => "variantes"@,
    }
}

impl Tabla {
    /// Nombre SQL de la tabla.
    pub fn nombre(&self) -> (r: &'static str)
        ensures
            r@ == nombre_tabla_spec(*self),
    {
        match self {
            Tabla::Principal => "principal",
            Tabla::Variantes => "variantes",
        }
    }
}

/// Definición de un campo configurable.
#[derive(Debug, Clone)]
pub struct CampoDef {
    pub id: i64,
    /// Nombre visible elegido por el usuario (puede tener espacios o acentos).
    pub nombre: String,
    /// Nombre físico de la columna SQLite: `f_<id>`.
    pub col_fisica: String,
    pub tabla: Tabla,
    pub tipo: TipoCampo,
    /// Decimales de presentación (solo formato).
    pub decimales: u8,
    pub totalizable: bool,
    /// Fórmula de un campo calculado.
    pub formula: Option<String>,
    pub visible: bool,
    pub modificable: bool,
    pub orden_visible: i32,
    /// Formato de presentación: `"moneda"`, `"porcentaje"` o ninguno.
    pub formato: Option<String>,
}

/// Copia de un texto opcional.
pub fn copia_opcional(s: &Option<String>) -> (r: Option<String>)
    ensures
        r == *s,
{
    match s {
        Some(t) => Some(t.clone()),
        None => None,
    }
}

impl CampoDef {
    /// Copia campo a campo de la definición.
    pub fn copia(&self) -> (r: CampoDef)
        ensures
            r == *self,
    {
        CampoDef {
            id: self.id,
            nombre: self.nombre.clone(),
            col_fisica: self.col_fisica.clone(),
            tabla: self.tabla,
            tipo: self.tipo,
            decimales: self.decimales,
            totalizable: self.totalizable,
            formula: copia_opcional(&self.formula),
            visible: self.visible,
            modificable: self.modificable,
            orden_visible: self.orden_visible,
            formato: copia_opcional(&self.formato),
        }
    }
}

/// Datos para crear o editar un campo (sin id ni columna física, que asigna
/// la base de datos).
#[derive(Debug, Clone)]
pub struct CampoNuevo {
    pub nombre: String,
    pub tabla: Tabla,
    pub tipo: TipoCampo,
    pub decimales: u8,
    pub totalizable: bool,
    pub formula: Option<String>,
    pub visible: bool,
    pub modificable: bool,
    pub orden_visible: i32,
    pub formato: Option<String>,
}

/// Valor por omisión de `visible` y `modificable` al leer un [`CampoNuevo`].
pub fn default_true() -> (r: bool)
    ensures
        r,
{
    true
}

/// Dirección de un nivel de orden.
#[derive(Debug, Clone, Copy, PartialEq, Eq, Structural)]
pub enum Direccion {
    Asc,
    Desc,
}

/// Un nivel de ordenamiento (hasta tres).
#[derive(Debug, Clone)]
pub struct OrdenCampo {
    pub campo: String,
    pub direccion: Direccion,
}

/// Operador de comparación de los filtros avanzados.
#[derive(Debug, Clone, Copy, PartialEq, Eq, Structural)]
pub enum OpComp {
    Igual,
    Distinto,
    Mayor,
    Menor,
    MayorIgual,
    MenorIgual,
    Contiene,
    Empieza,
}

/// El operador de SQL que significa una comparación: `=`, `<>`, `>`, `<`,
/// `>=` y `<=`; las de texto (`contiene`, `empieza`) no tienen uno.
pub open spec fn operador_sql(op: OpComp) -> Option<Seq<char>> {
    match op {
        OpComp::Igual => Some(seq!['=']),
        OpComp::Distinto => Some(seq!['<', '>']),
        OpComp::Mayor => Some(seq!['>']),
        OpComp::Menor => Some(seq!['<']),
        OpComp::MayorIgual => Some(seq!['>', '=']),
        OpComp::MenorIgual => Some(seq!['<', '=']),
        OpComp::Contiene => None,
        OpComp::Empieza => None,
    }
}

/// Conector lógico entre condiciones (Y / O).
#[derive(Debug, Clone, Copy, PartialEq, Eq, Structural)]
pub enum OpRel {
    Y,
    O,
}

/// Una condición de filtro avanzado.
#[derive(Debug, Clone)]
pub struct CondicionFiltro {
    /// Conector con la condición anterior (ninguno en la primera).
    pub op_rel: Option<OpRel>,
    pub campo: String,
    pub op_comp: OpComp,
    pub valor: String,
}

/// Filtro rápido del panel lateral: campo = valor (o multidato que contiene
/// el valor).
#[derive(Debug, Clone)]
pub struct FiltroRapido {
    pub campo: String,
    pub valor: String,
}

/// Petición de una ventana de registros para el desplazamiento virtual.
#[derive(Debug, Clone)]
pub struct QueryReq {
    pub tabla: Tabla,
    /// Solo las variantes de este registro principal.
    pub id_principal: Option<i64>,
    /// Grupo jerárquico activo.
    pub grupo: Option<SeleccionGrupo>,
    pub filtro_rapido: Option<FiltroRapido>,
    pub condiciones: Vec<CondicionFiltro>,
    /// Búsqueda libre de texto completo.
    pub busqueda: Option<String>,
    /// Hasta tres niveles de orden.
    pub orden: Vec<OrdenCampo>,
    /// Incluir los registros ocultos (`_auxiliar_ = 1`).
    pub incluir_ocultos: bool,
    pub offset: u64,
    pub limit: u32,
}

/// Selección en el árbol de grupos: el grupo y el valor elegido en cada
/// nivel (ninguno = todo el nivel).
#[derive(Debug, Clone)]
pub struct SeleccionGrupo {
    pub grupo_id: i64,
    pub valores: Vec<Option<String>>,
}

/// Definición de un grupo jerárquico de hasta tres niveles.
#[derive(Debug, Clone)]
pub struct Grupo {
    pub id: i64,
    pub nombre: String,
    /// Campo del primer nivel.
    pub por: String,
    /// Campo del segundo nivel.
    pub luego1: Option<String>,
    /// Campo del tercer nivel.
    pub luego2: Option<String>,
}

/// Nodo del árbol de grupos: un valor distinto, cuántos registros lo tienen
/// y los nodos del nivel siguiente.
#[derive(Debug)]
pub struct NodoGrupo {
    pub valor: String,
    pub conteo: u64,
    pub hijos: Vec<NodoGrupo>,
}

/// Valor de una categoría de multidatos.
#[derive(Debug, Clone)]
pub struct CategoriaVal {
    pub valor: String,
    pub es_default: bool,
}

/// Información del álbum abierto.
#[derive(Debug, Clone)]
pub struct AlbumInfo {
    /// Identificador de sesión asignado al abrir.
    pub album_id: u64,
    pub ruta: String,
    pub nombre: String,
    pub total_registros: u64,
    pub tiene_variantes: bool,
    pub campos: Vec<CampoDef>,
}

/// Filtro avanzado guardado con un nombre.
#[derive(Debug, Clone)]
pub struct FiltroGuardado {
    pub nombre: String,
    pub condiciones: Vec<CondicionFiltro>,
}

} // verus!
