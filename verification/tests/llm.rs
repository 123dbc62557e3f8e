use desdemovil::llm::{
    bajar_titulos, codificar, configuracion, contexto_de, encargo_de, fallo_consulta,
    leer_respuesta, limpiar, limpiar_documento, material_de, mensaje_titular, preparar_audio,
    pulir_analisis, pulir_documento, pulir_resumen, pulir_transcripcion, recortar_adornos,
    sin_cerco, sistema_sintesis, texto_transcripcion, Amplio, ContextoTrozo, Documento,
    NotaFuente, Proyecto, RespuestaServicio, Resumen, Sugerencia, BASE_DEFECTO, MODELO_AUDIO,
};

#[test]
fn quita_comillas_punto_y_recorta_el_titulo() {
    let s = limpiar(Sugerencia {
        titulo: format!("  \"{}\".  ", "a".repeat(80)),
        etiquetas: vec![],
    });
    assert_eq!(s.titulo.chars().count(), 60);
    assert!(!s.titulo.contains('"'));
}

#[test]
fn quita_comillas_aunque_vayan_antes_del_punto() {
    let s = limpiar(Sugerencia {
        titulo: "  «Llamar al taller».  ".into(),
        etiquetas: vec![],
    });
    assert_eq!(s.titulo, "Llamar al taller");
}

#[test]
fn normaliza_etiquetas_y_quita_repetidas() {
    let s = limpiar(Sugerencia {
        titulo: "Da igual".into(),
        etiquetas: vec![
            "#Trabajo".into(),
            "trabajo".into(),
            "  Ideas  ".into(),
            "".into(),
            "compra".into(),
            "viaje".into(),
            "sobrante".into(),
        ],
    });
    assert_eq!(s.etiquetas, vec!["trabajo", "ideas", "compra", "viaje"]);
}

#[test]
fn descarta_las_etiquetas_que_valen_para_cualquier_nota() {
    let s = limpiar(Sugerencia {
        titulo: "Pedir presupuesto para los neumáticos".into(),
        etiquetas: vec![
            "coche".into(),
            "nota".into(),
            "Personal".into(),
            "presupuesto".into(),
        ],
    });
    assert_eq!(s.etiquetas, vec!["coche", "presupuesto"]);
}

#[test]
fn quita_el_cerco_de_codigo_del_documento() {
    let d = limpiar_documento(Documento {
        titulo: "  «Migrar el buscador».  ".into(),
        markdown: "```markdown\n# Migrar el buscador\n\n## Contexto\nTexto.\n```".into(),
    });
    assert_eq!(d.titulo, "Migrar el buscador");
    assert!(d.markdown.starts_with("# Migrar"));
    assert!(!d.markdown.contains("```"));
}

#[test]
fn el_documento_sin_cerco_se_queda_igual() {
    let d = limpiar_documento(Documento {
        titulo: "Migrar el buscador".into(),
        markdown: "# Migrar el buscador\n\n## Contexto\nTexto.".into(),
    });
    assert!(d.markdown.ends_with("Texto."));
}

#[test]
fn sin_clave_no_hay_ia() {
    // La ausencia de clave es el modo sin IA, no un fallo.
    assert!(configuracion(None, None, None, None, None).is_none());
    assert!(configuracion(Some("   "), None, None, None, None).is_none());
}

#[test]
fn la_configuracion_se_normaliza() {
    let c = configuracion(Some(" k "), Some(" https://x/v1// "), Some(" m "), None, Some(" ")).unwrap();
    assert_eq!(c.clave, "k");
    assert_eq!(c.base, "https://x/v1");
    assert_eq!(c.modelo.as_deref(), Some("m"));
    assert_eq!(c.modelo_documento.as_deref(), Some("m"));
    assert_eq!(c.modelo_audio, MODELO_AUDIO);
    let c = configuracion(Some("k"), None, None, Some("d"), Some("a")).unwrap();
    assert_eq!(c.base, BASE_DEFECTO);
    assert_eq!(c.modelo, None);
    assert_eq!(c.modelo_documento.as_deref(), Some("d"));
    assert_eq!(c.modelo_audio, "a");
}

#[test]
fn quitar_adornos_dos_veces_no_cambia_nada() {
    let una = recortar_adornos(" \"«Hola».\" . ");
    assert_eq!(una, "Hola");
    assert_eq!(recortar_adornos(&una), una);
    assert_eq!(recortar_adornos("«»"), "");
}

#[test]
fn las_etiquetas_limpias_cumplen_sus_limites() {
    let s = limpiar(Sugerencia {
        titulo: "x".repeat(100),
        etiquetas: vec![
            format!("#{}", "Largo ".repeat(10)),
            "a".into(),
            "b".into(),
            "a".into(),
            "c".into(),
            "d".into(),
            "e".into(),
        ],
    });
    assert_eq!(s.titulo.chars().count(), 60);
    assert_eq!(s.etiquetas.len(), 4);
    assert!(s.etiquetas.iter().all(|e| !e.is_empty() && e.chars().count() <= 30));
    assert_eq!(s.etiquetas[0], "largo largo largo largo largo");
    assert_eq!(&s.etiquetas[1..], &["a", "b", "c"]);
}

#[test]
fn el_cerco_sin_salto_deja_el_texto_vacio() {
    assert_eq!(sin_cerco("```"), "");
    assert_eq!(sin_cerco("  hola  "), "hola");
    assert_eq!(sin_cerco("```\nuno\n``````  "), "uno");
}

#[test]
fn los_titulos_del_rol_bajan_a_cuarto_nivel() {
    assert_eq!(
        bajar_titulos("# Uno\n## Dos\n### Tres\n#### Cuatro\n#sin\nnada"),
        "#### Uno\n#### Dos\n#### Tres\n#### Cuatro\n#sin\nnada"
    );
}

#[test]
fn la_operacion_va_codificada_en_la_query() {
    assert_eq!(codificar("informe-a b/ñ"), "informe-a%20b%2F%C3%B1");
    assert_eq!(codificar("A.z_~-9"), "A.z_~-9");
}

#[test]
fn el_material_recorta_las_notas_que_no_caben_y_lo_avisa() {
    let nota = |t: &str, c: &str, e: Vec<&str>| NotaFuente {
        titulo: t.into(),
        creada_en: "2026-09-24T10:00:00.000Z".into(),
        contenido: c.into(),
        etiquetas: e.into_iter().map(String::from).collect(),
    };
    let m = material_de(&[nota("Uno", "hola", vec![]), nota("Dos", "adiós", vec!["a", "b"])], "dilo");
    assert_eq!(
        m,
        "### Nota 1 — Uno (2026-09-24T10:00:00.000Z)\nhola\n\n### Nota 2 — Dos (2026-09-24T10:00:00.000Z) · etiquetas: a, b\nadiós\n\n"
    );
    let largo = "x".repeat(40_000);
    let m = material_de(&[nota("Uno", &largo, vec![])], "dilo en «Dudas»");
    assert!(m.ends_with("(Aviso: 1 nota(s) se han recortado por longitud; dilo en «Dudas».)\n"));
    assert!(m.chars().count() < 31_000);
}

#[test]
fn encargo_y_contexto_del_proyecto() {
    assert_eq!(encargo_de("   "), "");
    assert_eq!(
        encargo_de(" hazlo corto "),
        "Instrucción del usuario para este documento, por encima de todo lo demás: hazlo corto\n\n"
    );
    assert_eq!(contexto_de(None), "");
    let p = Proyecto { nombre: "Club".into(), descripcion: "  ".into() };
    assert_eq!(contexto_de(Some(&p)), "Todas las notas son del proyecto «Club».\n\n");
    let p = Proyecto { nombre: "Club".into(), descripcion: " reservas ".into() };
    assert_eq!(contexto_de(Some(&p)), "Todas las notas son del proyecto «Club»: reservas\n\n");
}

#[test]
fn el_mensaje_de_titular_lleva_las_etiquetas_existentes() {
    assert_eq!(
        mensaje_titular("nota", &vec![]),
        "No hay etiquetas previas: crea las que la nota pida.\n\nNota:\nnota"
    );
    assert_eq!(
        mensaje_titular("nota", &vec!["a".into(), "b".into()]),
        "Etiquetas que ya existen, reutilízalas antes de inventar una nueva: a, b.\n\nNota:\nnota"
    );
}

#[test]
fn el_trozo_de_audio_dice_quien_habla() {
    let p = Proyecto { nombre: "Club".into(), descripcion: String::new() };
    let t = texto_transcripcion(&ContextoTrozo {
        n: 1,
        total: 3,
        con_quien: " Marta ",
        proyecto: Some(&p),
        cola_anterior: " [04:59] Marta: vale ",
    });
    assert_eq!(
        t,
        "La conversación es del proyecto «Club». Fragmento 2 de 3 de la conversación. Son dos personas: «Entrevistador» (quien hace las preguntas) y la persona entrevistada, que es: Marta. Llama a esta por su nombre de pila.\n\nAsí terminaba el fragmento anterior; mantén exactamente los mismos nombres de hablante:\n[04:59] Marta: vale"
    );
}

#[test]
fn la_sintesis_con_un_solo_rol_no_busca_tensiones() {
    assert!(sistema_sintesis(1).contains("Como solo hay un rol"));
    assert!(sistema_sintesis(3).contains("**Rol A ↔ Rol B:**"));
}

#[test]
fn las_respuestas_vacias_son_errores() {
    assert_eq!(
        pulir_transcripcion(" ``` ").err().as_deref(),
        Some("el modelo devolvió una transcripción vacía")
    );
    assert_eq!(pulir_transcripcion("[00:00] A: x").ok().as_deref(), Some("[00:00] A: x"));
    assert_eq!(pulir_analisis("# Hola").ok().as_deref(), Some("#### Hola"));
    assert!(pulir_analisis("   ").is_err());
    let d = pulir_documento(Documento { titulo: "«T».".into(), markdown: "# T".into() }).ok().unwrap();
    assert_eq!(d.titulo, "T");
    assert_eq!(
        pulir_documento(Documento { titulo: "T".into(), markdown: " ".into() }).err().as_deref(),
        Some("el modelo devolvió un documento vacío")
    );
    let amplio = || Amplio {
        participantes: vec![],
        temas: vec![],
        puntos_clave: vec![],
        acuerdos: vec![],
        tareas: vec![],
        frases: vec![],
    };
    let r = pulir_resumen(Resumen {
        titulo: format!("«{}».", "t".repeat(90)),
        ejecutivo: "```\nBien.\n```".into(),
        amplio: amplio(),
    })
    .ok()
    .unwrap();
    assert_eq!(r.titulo, "t".repeat(80));
    assert_eq!(r.ejecutivo, "Bien.");
    assert!(pulir_resumen(Resumen { titulo: "x".into(), ejecutivo: "".into(), amplio: amplio() }).is_err());
}

#[test]
fn el_audio_va_en_base64() {
    assert_eq!(preparar_audio(b"hola").ok().as_deref(), Some("aG9sYQ=="));
    assert_eq!(preparar_audio(b"M").ok().as_deref(), Some("TQ=="));
    assert_eq!(preparar_audio(b"Ma").ok().as_deref(), Some("TWE="));
    assert_eq!(preparar_audio(b"Man").ok().as_deref(), Some("TWFu"));
    assert_eq!(preparar_audio(&[0xff, 0xfe]).ok().as_deref(), Some("//4="));
    assert_eq!(preparar_audio(&[0xfb, 0xff, 0xbf]).ok().as_deref(), Some("+/+/"));
    assert_eq!(preparar_audio(b"").err().as_deref(), Some("trozo de audio vacío"));
}

fn respuesta() -> RespuestaServicio {
    RespuestaServicio {
        exito: true,
        estado: "200 OK".into(),
        codigo: None,
        mensaje: None,
        fin: Some("stop".into()),
        contenido: Some("hola".into()),
        modelo: Some("m/x".into()),
    }
}

#[test]
fn la_respuesta_del_servicio_se_lee_o_se_explica() {
    assert_eq!(leer_respuesta(&respuesta()), Ok(("hola".to_string(), Some("m/x".to_string()))));
    let mut r = respuesta();
    r.fin = Some("length".into());
    assert_eq!(
        leer_respuesta(&r),
        Err("el modelo cortó la respuesta por longitud".to_string())
    );
    let mut r = respuesta();
    r.contenido = None;
    assert_eq!(leer_respuesta(&r), Err("la respuesta no trae contenido".to_string()));
    let mut r = respuesta();
    r.exito = false;
    r.estado = "402 Payment Required".into();
    r.codigo = Some("presupuesto".into());
    assert_eq!(
        leer_respuesta(&r),
        Err("el servicio respondió 402 Payment Required (presupuesto): sin detalle".to_string())
    );
    assert_eq!(
        fallo_consulta("500 Internal Server Error", Some("caído")),
        "el servicio respondió 500 Internal Server Error: caído"
    );
}
