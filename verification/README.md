# mic

Biblioteca de álbumes de colección (MIC): registros con campos configurables,
fórmulas, grupos, filtros, importación y exportación, miniaturas, álbumes
ligados y migración de álbumes de Access.

- `src/` es la biblioteca verificada con Verus: cada función lleva su
  contrato (`requires` / `ensures`) sobre modelos matemáticos, y las leyes que
  relacionan varias funciones están demostradas como funciones `proof`
  públicas (`ley_*`).
  - `calc`: análisis léxico y sintáctico de fórmulas, expansión de las
    referencias entre campos calculados, orden de recálculo y detección de
    ciclos; fechas.
  - `db`: construcción de las consultas (los valores del usuario van siempre
    como parámetros: `ley_consulta_parametrizada`), sentencias
    de estructura, grupos, estadísticas y texto de búsqueda.
  - `importar`: codificación y separador del archivo, casamiento de columnas,
    normalización de celdas, plan de aplicación por llave y política.
  - `exportar`: selección de campos, CSV para Excel y CSV `csv-mic`.
  - `ligados`: validación de una liga y emparejamiento por llave.
  - `migrador`: lectura de las tablas de un álbum de Access y su conversión.
  - `album`, `thumbs`, `protocolo`: recientes y plantillas, miniaturas JPEG
    (decodificar, reducir y codificar, con `image` y `fast_image_resize`),
    su tamaño y su caché, direcciones del protocolo `thumb://`.
- `app/` es el código ordinario alrededor: la base SQLite, los archivos, los
  números de coma flotante (valores y fórmulas) y las bibliotecas de Excel,
  zip y `.mdb`.
- `tests/` prueba la biblioteca con valores concretos.
