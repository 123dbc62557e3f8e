# desdemovil

Backend de un cuaderno de notas dictadas: notas tituladas y etiquetadas por
un modelo de lenguaje, proyectos con subcarpetas, documentos e informes con
varios roles a partir de una selección de notas, y entrevistas grabadas que
se transcriben y se resumen.

## Estructura

- `src/`: la lógica, verificada con Verus. Las funciones públicas dicen en
  su contrato el valor que devuelven, sobre funciones `spec`. Donde el valor
  pasa por la biblioteca estándar (minúsculas, mayúsculas, letras y cifras
  de Unicode), el contrato lo nombra sin escribirlo entero. La carpeta de una
  ruta se fija para un nombre solo (`notas.db`) y para rutas corrientes
  `d/f`; para las demás (prefijos de unidad, `\`, rutas que acaban en `/`),
  que dependen de la plataforma, solo se dice que es un principio de la ruta.
  - `texto.rs`: recortes, líneas, palabras, uniones y números en decimal.
  - `orden.rs`: órdenes estables por clave.
  - `llm.rs`: lo que se le pide al modelo y cómo se limpia lo que devuelve.
  - `notas.rs`: notas, proyectos, búsquedas y documentos.
  - `analisis.rs`: roles, modelos y composición de los informes.
  - `entrevistas.rs`: marcas de tiempo, audio, rangos y resúmenes.
  - `leyes.rs`: propiedades que valen para cualquier entrada.
- `app/`: el servidor (axum, SQLite, cliente HTTP del modelo, `ffmpeg`), que
  llama a la biblioteca para cada decisión.
- `tests/`: pruebas sobre valores concretos.
