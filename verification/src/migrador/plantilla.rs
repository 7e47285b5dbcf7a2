//! Plantillas `.xms` del álbum de origen: un XML cuyo elemento `Registro`
//! enumera los campos (el nombre del nodo es el nombre del campo, con `_` por
//! espacio) y cuyo `_variante_` envuelve los campos de las variantes. El
//! análisis léxico del XML lo hace `quick_xml`; aquí se interpretan sus
//! eventos.

use vstd::prelude::*;
use vstd::string::*;
use quick_xml::events::Event;
use crate::error::{MicError, MicErrorSpec};
use crate::migrador::migrar::{cambia_und_esp, und_esp_spec};
use crate::migrador::type_map::{entero_de, entero_spec, jet_bool, jet_bool_spec};
use crate::model::{tipo_de_jet, CampoNuevo, Tabla, TipoCampo};
use crate::protocolo::{natural_de, natural_spec};
use crate::texto::{cadena, caracteres, recortado, recortar};

verus! {

/// Un evento del lector XML, con lo que de él se lee.
#[derive(Debug, Clone)]
pub enum EventoXml {
    /// Apertura (o elemento vacío) con su nombre y sus atributos (clave y
    /// valor ya sin escapes), en orden.
    Abre(String, Vec<(String, String)>),
    /// Cierre de un elemento.
    Cierra(String),
    /// Fin del documento.
    Fin,
    /// Texto, comentarios y demás eventos, que no se interpretan.
    Otro,
}

/// Vista de un evento.
pub enum EventoSpec {
    Abre(Seq<char>, Seq<(Seq<char>, Seq<char>)>),
    Cierra(Seq<char>),
    Fin,
    Otro,
}

pub open spec fn vista_evento(e: EventoXml) -> EventoSpec {
    match e {
        EventoXml::Abre(n, a) => EventoSpec::Abre(
            n@,
            a@.map_values(|x: (String, String)| (x.0@, x.1@)),
        ),
        EventoXml::Cierra(n) => EventoSpec::Cierra(n@),
        EventoXml::Fin => EventoSpec::Fin,
        EventoXml::Otro => EventoSpec::Otro,
    }
}

/// Lo que se lee de los atributos de un nodo de campo: el byte de tipo, los
/// decimales, si es totalizable y la fórmula. Si un atributo se repite,
/// rige el último; una fórmula vacía no cuenta.
pub open spec fn atributos_spec(a: Seq<(Seq<char>, Seq<char>)>) -> (int, int, bool, Option<Seq<char>>)
    decreases a.len(),
{
    if a.len() == 0 {
        (0, 0, false, None)
    } else {
        let (tipo, dec, tot, formula) = atributos_spec(a.drop_last());
        let (k, v) = a.last();
        if k == "Tipo"@ {
            (
                match entero_spec(recortado(v)) {
                    Some(n) => n,
                    None => 0,
                },
                dec,
                tot,
                formula,
            )
        } else if k == "Decimales"@ {
            (
                tipo,
                match natural_spec(recortado(v), 255) {
                    Some(n) => n,
                    None => 0,
                },
                tot,
                formula,
            )
        } else if k == "Totalizable"@ {
            (tipo, dec, jet_bool_spec(v), formula)
        } else if k == "Formula"@ && recortado(v).len() > 0 {
            (tipo, dec, tot, Some(recortado(v)))
        } else {
            (tipo, dec, tot, formula)
        }
    }
}

/// Vista de un campo leído: nombre, tabla, tipo, decimales, si es
/// totalizable, fórmula y orden visible.
pub type CampoPlantilla = (Seq<char>, Tabla, TipoCampo, u8, bool, Option<Seq<char>>, i32);

pub open spec fn vista_campo_nuevo(c: CampoNuevo) -> CampoPlantilla {
    (
        c.nombre@,
        c.tabla,
        c.tipo,
        c.decimales,
        c.totalizable,
        match c.formula {
            Some(f) => Some(f@),
            None => None,
        },
        c.orden_visible,
    )
}

/// El campo de un nodo: su nombre decodificado (ninguno si queda vacío), la
/// tabla según se esté dentro de `_variante_`, el tipo de su byte (texto si
/// no es válido) y la fórmula solo si es calculado.
pub open spec fn nodo_spec(nombre: Seq<char>, a: Seq<(Seq<char>, Seq<char>)>, en_variantes: bool, orden: i32) -> Option<CampoPlantilla> {
    let n = und_esp_spec(nombre);
    let (tipo_n, dec, tot, formula) = atributos_spec(a);
    let tipo = match tipo_de_jet(tipo_n) {
        Some(t) => t,
        None => TipoCampo::Texto,
    };
    if n.len() == 0 {
        None
    } else {
        Some(
            (
                n,
                if en_variantes {
                    Tabla::Variantes
                } else {
                    Tabla::Principal
                },
                tipo,
                dec as u8,
                tot,
                if tipo == TipoCampo::Calculado {
                    formula
                } else {
                    None
                },
                orden,
            ),
        )
    }
}

/// Estado del recorrido de los eventos: campos leídos, si se está dentro de
/// `_variante_` y si ya se entró en un `Registro`.
pub struct EstadoPlantilla {
    pub campos: Seq<CampoPlantilla>,
    pub en_variantes: bool,
    pub dentro_registro: bool,
}

/// Un evento aplicado al estado: `Registro` abre la zona de campos,
/// `_variante_` la de variantes (hasta su cierre); los nodos con `_` inicial
/// son de sistema y se omiten; dentro de un registro, cada otro nodo es un
/// campo, numerado en orden.
pub open spec fn paso_spec(s: EstadoPlantilla, e: EventoSpec) -> EstadoPlantilla {
    match e {
        EventoSpec::Abre(n, a) => if n == "mic"@ {
            s
        } else if n == "Registro"@ {
            EstadoPlantilla { dentro_registro: true, ..s }
        } else if n == "_variante_"@ {
            EstadoPlantilla { en_variantes: true, ..s }
        } else if n.len() > 0 && n[0] == '_' {
            s
        } else if s.dentro_registro {
            match nodo_spec(n, a, s.en_variantes, s.campos.len() as i32) {
                Some(c) => EstadoPlantilla { campos: s.campos.push(c), ..s },
                None => s,
            }
        } else {
            s
        },
        EventoSpec::Cierra(n) => if n == "_variante_"@ {
            EstadoPlantilla { en_variantes: false, ..s }
        } else {
            s
        },
        _ => s,
    }
}

/// Estado tras recorrer los eventos.
pub open spec fn recorrido_spec(ev: Seq<EventoSpec>) -> EstadoPlantilla
    decreases ev.len(),
{
    if ev.len() == 0 {
        EstadoPlantilla { campos: Seq::empty(), en_variantes: false, dentro_registro: false }
    } else {
        paso_spec(recorrido_spec(ev.drop_last()), ev.last())
    }
}

/// Atributos de un nodo de campo.
fn leer_atributos(a: &Vec<(String, String)>) -> (r: (i64, u8, bool, Option<String>))
    ensures
        ({
            let (t, d, b, f) = atributos_spec(a@.map_values(|x: (String, String)| (x.0@, x.1@)));
            &&& r.0 as int == t
            &&& r.1 as int == d
            &&& r.2 == b
            &&& match (r.3, f) {
                (Some(x), Some(y)) => x@ == y,
                (None, None) => true,
                _ => false,
            }
        }),
{
    let ghost va = a@.map_values(|x: (String, String)| (x.0@, x.1@));
    let mut tipo: i64 = 0;
    let mut dec: u8 = 0;
    let mut tot = false;
    let mut formula: Option<String> = None;
    let mut i: usize = 0;
    proof {
        reveal_strlit("Tipo");
        reveal_strlit("Decimales");
        reveal_strlit("Totalizable");
        reveal_strlit("Formula");
    }
    while i < a.len()
        invariant
            i <= a@.len(),
            va == a@.map_values(|x: (String, String)| (x.0@, x.1@)),
            ({
                let (t, d, b, f) = atributos_spec(va.subrange(0, i as int));
                &&& tipo as int == t
                &&& dec as int == d
                &&& tot == b
                &&& match (formula, f) {
                    (Some(x), Some(y)) => x@ == y,
                    (None, None) => true,
                    _ => false,
                }
            }),
        decreases a.len() - i,
    {
        let ghost sub = va.subrange(0, i + 1);
        assert(sub.drop_last() =~= va.subrange(0, i as int));
        assert(sub.last() == (a@[i as int].0@, a@[i as int].1@));
        let k = &a[i].0;
        let v = &a[i].1;
        if *k == String::from_str("Tipo") {
            tipo = match entero_de(&recortar(&caracteres(v.as_str()))) {
                Some(n) => n,
                None => 0,
            };
        } else if *k == String::from_str("Decimales") {
            dec = match natural_de(&recortar(&caracteres(v.as_str())), 255) {
                Some(n) => n as u8,
                None => 0,
            };
        } else if *k == String::from_str("Totalizable") {
            tot = jet_bool(v.as_str());
        } else if *k == String::from_str("Formula") {
            let f = recortar(&caracteres(v.as_str()));
            if f.len() > 0 {
                formula = Some(cadena(f.as_slice()));
            }
        }
        i += 1;
    }
    assert(va.subrange(0, i as int) =~= va);
    (tipo, dec, tot, formula)
}

/// Vista de los campos leídos.
pub open spec fn vista_campos(v: Seq<CampoNuevo>) -> Seq<CampoPlantilla> {
    v.map_values(|c: CampoNuevo| vista_campo_nuevo(c))
}

/// Vista de los eventos.
pub open spec fn vista_eventos(v: Seq<EventoXml>) -> Seq<EventoSpec> {
    v.map_values(|e: EventoXml| vista_evento(e))
}

/// Los eventos que `quick_xml::Reader::from_str` lee de `xml` con
/// `read_event` hasta el fin del documento (sin el evento de fin), o el
/// mensaje del primer error del lector.
pub uninterp spec fn eventos_xml(xml: Seq<char>) -> Result<Seq<EventoSpec>, Seq<char>>;

/// Lee todos los eventos de `xml` con un `quick_xml::Reader` sobre el texto
/// (`read_event` hasta `Eof`): aperturas y elementos vacíos con su nombre y
/// sus atributos (el valor normalizado y sin escapes; si no se puede
/// desescapar, tal cual; un atributo mal formado se descarta), cierres y, como
/// `Otro`, los demás; o el mensaje del primer error. Se afirma que el resultado
/// es función del texto: el lector, en su configuración por omisión, no
/// depende de nada más.
#[verifier::external_body]
fn leer_eventos(xml: &str) -> (r: Result<Vec<EventoXml>, String>)
    ensures
        match eventos_xml(xml@) {
            Ok(ev) => r matches Ok(v) && vista_eventos(v@) == ev,
            Err(m) => r matches Err(t) && t@ == m,
        },
{
    let mut lector = quick_xml::Reader::from_str(xml);
    let mut v = Vec::new();
    loop {
        v.push(match lector.read_event().map_err(|e| e.to_string())? {
            Event::Start(e) | Event::Empty(e) => EventoXml::Abre(e.name().as_ref().to_string(), e.attributes().flatten().map(|a| (
                a.key.as_ref().to_string(),
                a.normalized_value(quick_xml::XmlVersion::Implicit1_0).map(|c| c.into_owned()).unwrap_or_else(|_| a.value.to_string()),
            )).collect()),
            Event::End(e) => EventoXml::Cierra(e.name().as_ref().to_string()),
            Event::Eof => return Ok(v),
            _ => EventoXml::Otro,
        });
    }
}

proof fn lema_orden_consecutivo(ev: Seq<EventoSpec>)
    requires
        ev.len() < 0x7FFF_FFFF,
    ensures
        recorrido_spec(ev).campos.len() <= ev.len(),
        forall|i: int|
            0 <= i < recorrido_spec(ev).campos.len() ==> (#[trigger] recorrido_spec(ev).campos[i]).6
                == i,
    decreases ev.len(),
{
    if ev.len() > 0 {
        lema_orden_consecutivo(ev.drop_last());
    }
}

/// Campos de una plantilla a partir de sus eventos XML.
pub fn campos_de_eventos(eventos: &[EventoXml]) -> (r: Vec<CampoNuevo>)
    requires
        eventos@.len() < 0x7FFF_FFFF,
    ensures
        vista_campos(r@) == recorrido_spec(vista_eventos(eventos@)).campos,
        forall|i: int| 0 <= i < r@.len() ==> (#[trigger] r@[i]).visible && r@[i].modificable
            && r@[i].formato is None,
{
    let ghost ve = vista_eventos(eventos@);
    let mut campos: Vec<CampoNuevo> = Vec::new();
    let mut en_variantes = false;
    let mut dentro_registro = false;
    let mut i: usize = 0;
    proof {
        reveal_strlit("mic");
        reveal_strlit("Registro");
        reveal_strlit("_variante_");
    }
    while i < eventos.len()
        invariant
            i <= eventos@.len(),
            eventos@.len() < 0x7FFF_FFFF,
            ve == vista_eventos(eventos@),
            vista_campos(campos@) == recorrido_spec(ve.subrange(0, i as int)).campos,
            en_variantes == recorrido_spec(ve.subrange(0, i as int)).en_variantes,
            dentro_registro == recorrido_spec(ve.subrange(0, i as int)).dentro_registro,
            campos@.len() <= i,
            forall|k: int| 0 <= k < campos@.len() ==> (#[trigger] campos@[k]).visible
                && campos@[k].modificable && campos@[k].formato is None,
        decreases eventos.len() - i,
    {
        let ghost sub = ve.subrange(0, i + 1);
        assert(sub.drop_last() =~= ve.subrange(0, i as int));
        assert(sub.last() == vista_evento(eventos@[i as int]));
        let ghost antes = vista_campos(campos@);
        match &eventos[i] {
            EventoXml::Abre(n, a) => {
                if *n == String::from_str("mic") {
                } else if *n == String::from_str("Registro") {
                    dentro_registro = true;
                } else if *n == String::from_str("_variante_") {
                    en_variantes = true;
                } else if !n.as_str().is_empty() && caracteres(n.as_str())[0] == '_' {
                } else if dentro_registro {
                    let nombre = cambia_und_esp(n.as_str());
                    if !nombre.as_str().is_empty() {
                        let (tipo_n, dec, tot, formula) = leer_atributos(a);
                        let tipo = match TipoCampo::from_jet(tipo_n) {
                            Some(t) => t,
                            None => TipoCampo::Texto,
                        };
                        let orden = campos.len() as i32;
                        let c = CampoNuevo {
                            nombre,
                            tabla: if en_variantes {
                                Tabla::Variantes
                            } else {
                                Tabla::Principal
                            },
                            tipo,
                            decimales: dec,
                            totalizable: tot,
                            formula: if tipo == TipoCampo::Calculado {
                                formula
                            } else {
                                None
                            },
                            visible: true,
                            modificable: true,
                            orden_visible: orden,
                            formato: None,
                        };
                        campos.push(c);
                        assert(vista_campos(campos@) =~= antes.push(vista_campo_nuevo(c)));
                    }
                }
            },
            EventoXml::Cierra(n) => {
                if *n == String::from_str("_variante_") {
                    en_variantes = false;
                }
            },
            _ => {},
        }
        i += 1;
    }
    assert(ve.subrange(0, i as int) =~= ve);
    campos
}

/// Mayor número de eventos XML de una plantilla: el orden de un campo es un
/// `i32`.
pub const MAX_EVENTOS: usize = 0x7FFF_FFFE;

/// Lee los campos de una plantilla `.xms` ya decodificada: se recorren los
/// eventos del XML hasta su fin. Un error del lector XML es un error de
/// migración (`plantilla .xms mal formada: ` y el mensaje del lector); una
/// plantilla con más eventos que los que numera un `i32` también se rechaza.
pub fn parse_xms_texto(xml: &str) -> (r: Result<Vec<CampoNuevo>, MicError>)
    ensures
        match eventos_xml(xml@) {
            Ok(ev) => if ev.len() <= MAX_EVENTOS {
                r matches Ok(v) && vista_campos(v@) == recorrido_spec(ev).campos
            } else {
                r matches Err(e) && e is Migracion
            },
            Err(m) => r matches Err(e) && e@ == MicErrorSpec::Migracion(
                "plantilla .xms mal formada: "@ + m,
            ),
        },
        r matches Ok(v) ==> forall|i: int| 0 <= i < v@.len() ==> (#[trigger] v@[i]).orden_visible == i
            && v@[i].visible && v@[i].modificable && v@[i].formato is None,
{
    let eventos = match leer_eventos(xml) {
        Ok(v) => v,
        Err(m) => {
            let mut msg = String::from_str("plantilla .xms mal formada: ");
            msg.append(m.as_str());
            proof {
                reveal_strlit("plantilla .xms mal formada: ");
            }
            return Err(MicError::Migracion(msg));
        },
    };
    if eventos.len() > MAX_EVENTOS {
        return Err(MicError::Migracion(String::from_str("plantilla .xms demasiado grande")));
    }
    let campos = campos_de_eventos(eventos.as_slice());
    proof {
        lema_orden_consecutivo(vista_eventos(eventos@));
        assert forall|i: int| 0 <= i < campos@.len() implies (#[trigger] campos@[i]).orden_visible == i by {
            assert(vista_campos(campos@)[i] == vista_campo_nuevo(campos@[i]));
        }
    }
    Ok(campos)
}

} // verus!
