//! Un jugador: su flota, su puntaje y sus monedas.

use crate::barco::{copiar_posiciones, flota_v, Barco, BarcoV};
use crate::estado_barco::EstadoBarco;
use crate::flota::{atacar_barcos, avisos_ataque, flota_tras_ataque, monedas_ataque, puntos_ataque};
use crate::mapa::{
    alguna_en_tablero, con_celda, es_region_libre, estampado, hay_region, marcador, marcador_de,
    misma_forma, resumen_de, vista_de, Mapa, HUNDIDO, VACIO,
};
use crate::mensaje::{envios_v, Envio, Mensaje, MensajeV};
use vstd::prelude::*;

verus! {

/// Monedas con las que empieza cada jugador.
pub const MONEDAS_INICIALES: usize = 500;

/// Tamano del barco con el que empieza cada jugador.
pub const TAMANO_INICIAL: usize = 1;

/// Jugador de la partida.
#[derive(Debug)]
pub struct Jugador {
    pub id: usize,
    pub nombre_usuario: String,
    pub barcos: Vec<Barco>,
    pub puntos: usize,
    pub monedas: usize,
    pub ha_perdido: bool,
    /// Identificador que recibira el proximo barco del jugador.
    pub siguiente_barco: usize,
}

/// Modelo matematico de un jugador.
pub ghost struct JugadorV {
    pub id: nat,
    pub nombre_usuario: Seq<char>,
    pub barcos: Seq<BarcoV>,
    pub puntos: nat,
    pub monedas: nat,
    pub ha_perdido: bool,
    pub siguiente_barco: nat,
}

impl View for Jugador {
    type V = JugadorV;

    open spec fn view(&self) -> JugadorV {
        JugadorV {
            id: self.id as nat,
            nombre_usuario: self.nombre_usuario@,
            barcos: flota_v(self.barcos@),
            puntos: self.puntos as nat,
            monedas: self.monedas as nat,
            ha_perdido: self.ha_perdido,
            siguiente_barco: self.siguiente_barco as nat,
        }
    }
}

/// Modelo de una lista de jugadores.
pub open spec fn jugadores_v(jugadores: Seq<Jugador>) -> Seq<JugadorV> {
    jugadores.map_values(|j: Jugador| j@)
}

/// Las primeras celdas de `coordenadas`, tantas como el tamano del barco.
pub open spec fn destino_de(coordenadas: Seq<(i32, i32)>, tamano: nat) -> Seq<(i32, i32)> {
    if coordenadas.len() <= tamano {
        coordenadas
    } else {
        coordenadas.take(tamano as int)
    }
}

/// El jugador `j` con un barco sano mas, de `tamano` celdas en `posiciones`.
pub open spec fn con_barco_nuevo(j: JugadorV, tamano: nat, posiciones: Seq<(i32, i32)>) -> JugadorV {
    JugadorV {
        barcos: j.barcos.push(
            BarcoV { id: j.siguiente_barco, tamano, posiciones, estado: EstadoBarco::Sano },
        ),
        siguiente_barco: j.siguiente_barco + 1,
        ..j
    }
}

/// Se le puede dar un barco de `tamano` celdas al jugador `j` en el tablero
/// `t`: queda una region libre y un identificador de barco sin usar.
pub open spec fn puede_recibir_barco(j: JugadorV, t: Seq<Seq<char>>, tamano: nat) -> bool {
    hay_region(t, tamano) && j.siguiente_barco < usize::MAX
}

/// `j` es un jugador recien creado con identificador `id` y nombre `nombre`,
/// y `t1` es el tablero `t0` despues de recibirlo: si en `t0` habia lugar, el
/// jugador tiene un unico barco sano de `TAMANO_INICIAL` celdas en una region
/// que estaba libre, marcada ahora con su marca; si no, no tiene barcos y el
/// tablero no cambio.
pub open spec fn es_ingreso(
    t0: Seq<Seq<char>>,
    t1: Seq<Seq<char>>,
    j: JugadorV,
    id: nat,
    nombre: Seq<char>,
) -> bool {
    &&& j.id == id
    &&& j.nombre_usuario == nombre
    &&& j.puntos == 0
    &&& j.monedas == MONEDAS_INICIALES
    &&& !j.ha_perdido
    &&& hay_region(t0, TAMANO_INICIAL as nat) ==> {
        &&& j.barcos.len() == 1
        &&& j.barcos[0].id == 0
        &&& j.barcos[0].tamano == TAMANO_INICIAL
        &&& j.barcos[0].estado == EstadoBarco::Sano
        &&& es_region_libre(t0, j.barcos[0].posiciones, TAMANO_INICIAL as nat)
        &&& t1 == estampado(t0, j.barcos[0].posiciones, marcador_de(id))
        &&& j.siguiente_barco == 1
    }
    &&& !hay_region(t0, TAMANO_INICIAL as nat) ==> {
        &&& j.barcos.len() == 0
        &&& t1 == t0
        &&& j.siguiente_barco == 0
    }
}

impl Jugador {
    /// Crea un jugador con `MONEDAS_INICIALES` monedas y sin puntos, y le
    /// coloca en el tablero, en un lugar libre al azar, un barco de
    /// `TAMANO_INICIAL` celdas. Si el tablero no tiene lugar, el jugador
    /// queda sin barcos y el tablero no cambia.
    pub fn new(id: usize, nombre: String, mapa: &mut Mapa) -> (j: Jugador)
        ensures
            misma_forma(old(mapa)@, final(mapa)@),
            es_ingreso(old(mapa)@, final(mapa)@, j@, id as nat, nombre@),
    {
        let mut jugador = Jugador {
            id,
            nombre_usuario: nombre,
            barcos: Vec::new(),
            puntos: 0,
            monedas: MONEDAS_INICIALES,
            ha_perdido: false,
            siguiente_barco: 0,
        };
        assert(jugador@.barcos =~= Seq::empty());
        jugador.agregar_barco(TAMANO_INICIAL, mapa);
        jugador
    }

    /// Coloca en un lugar libre al azar del tablero un barco nuevo de
    /// `tamanio_barco` celdas y lo agrega al final de la flota. Si no queda
    /// lugar, o no quedan identificadores de barco, no cambia nada.
    pub fn agregar_barco(&mut self, tamanio_barco: usize, mapa: &mut Mapa)
        ensures
            misma_forma(old(mapa)@, final(mapa)@),
            puede_recibir_barco(old(self)@, old(mapa)@, tamanio_barco as nat) ==> {
                &&& final(self)@.barcos.len() == old(self)@.barcos.len() + 1
                &&& es_region_libre(
                    old(mapa)@,
                    final(self)@.barcos.last().posiciones,
                    tamanio_barco as nat,
                )
                &&& final(self)@ == con_barco_nuevo(
                    old(self)@,
                    tamanio_barco as nat,
                    final(self)@.barcos.last().posiciones,
                )
                &&& final(mapa)@ == estampado(
                    old(mapa)@,
                    final(self)@.barcos.last().posiciones,
                    marcador_de(old(self).id as nat),
                )
            },
            !puede_recibir_barco(old(self)@, old(mapa)@, tamanio_barco as nat) ==> {
                &&& final(self)@ == old(self)@
                &&& final(mapa)@ == old(mapa)@
            },
    {
        if self.siguiente_barco == usize::MAX {
            return ;
        }
        let posiciones = mapa.colocar_al_azar(marcador(self.id), tamanio_barco);
        if posiciones.len() == 0 {
            assert(mapa@ =~~= old(mapa)@);
            return ;
        }
        let barco = Barco::new(self.siguiente_barco, tamanio_barco, posiciones);
        self.barcos.push(barco);
        self.siguiente_barco = self.siguiente_barco + 1;
        assert(self@.barcos =~= old(self)@.barcos.push(barco@));
    }

    /// Mueve el barco de indice `barco` a las primeras celdas de
    /// `coordenadas_contiguas`, tantas como su tamano: el tablero se
    /// actualiza y, si alguna celda de destino cae dentro del tablero, el
    /// barco pasa a ocupar el destino.
    pub fn actualizar_posicion_barco(
        &mut self,
        coordenadas_contiguas: Vec<(i32, i32)>,
        barco: usize,
        mapa: &mut Mapa,
    )
        requires
            barco < old(self).barcos@.len(),
        ensures
            misma_forma(old(mapa)@, final(mapa)@),
            final(mapa)@ == estampado(
                estampado(old(mapa)@, old(self)@.barcos[barco as int].posiciones, VACIO),
                destino_de(coordenadas_contiguas@, old(self)@.barcos[barco as int].tamano),
                marcador_de(old(self).id as nat),
            ),
            final(self)@ == (JugadorV {
                barcos: old(self)@.barcos.update(
                    barco as int,
                    BarcoV {
                        posiciones: if alguna_en_tablero(
                            old(mapa)@,
                            destino_de(
                                coordenadas_contiguas@,
                                old(self)@.barcos[barco as int].tamano,
                            ),
                        ) {
                            destino_de(
                                coordenadas_contiguas@,
                                old(self)@.barcos[barco as int].tamano,
                            )
                        } else {
                            old(self)@.barcos[barco as int].posiciones
                        },
                        ..old(self)@.barcos[barco as int]
                    },
                ),
                ..old(self)@
            }),
    {
        let tamano = self.barcos[barco].tamano;
        let mut coordenadas_destino: Vec<(i32, i32)> = Vec::new();
        let mut i: usize = 0;
        while i < coordenadas_contiguas.len() && i < tamano
            invariant
                i <= coordenadas_contiguas.len(),
                i <= tamano,
                coordenadas_destino@ == coordenadas_contiguas@.take(i as int),
            decreases coordenadas_contiguas.len() - i,
        {
            coordenadas_destino.push(coordenadas_contiguas[i]);
            assert(coordenadas_destino@ == coordenadas_contiguas@.take(i + 1));
            i = i + 1;
        }
        assert(coordenadas_destino@ == destino_de(coordenadas_contiguas@, tamano as nat)) by {
            if coordenadas_contiguas.len() <= tamano {
                assert(coordenadas_contiguas@.take(coordenadas_contiguas.len() as int)
                    == coordenadas_contiguas@);
            }
        }
        let mut movido = self.barcos[barco].clone();
        let copia = copiar_posiciones(&coordenadas_destino);
        if mapa.actualizar_posicion_barco(&movido, coordenadas_destino, self.id) {
            movido.actualizar_posicion(copia);
        }
        self.barcos.set(barco, movido);
        assert(self@.barcos =~= old(self)@.barcos.update(barco as int, movido@));
    }

    /// Copia del barco de indice `barco_seleccionado`.
    pub fn obtener_barco(&self, barco_seleccionado: usize) -> (b: Barco)
        requires
            barco_seleccionado < self.barcos@.len(),
        ensures
            b@ == self@.barcos[barco_seleccionado as int],
    {
        self.barcos[barco_seleccionado].clone()
    }

    /// Resuelve un ataque a la celda `coordenadas_ataque` contra la flota del
    /// jugador: cada barco que ocupa la celda la pierde, los que se quedan
    /// sin celdas se hunden y salen de la flota, y si hubo algun impacto la
    /// celda queda marcada como hundida en el tablero. Devuelve los puntos y
    /// las monedas que gana el atacante y los avisos para este jugador.
    pub fn procesar_ataque(&mut self, coordenadas_ataque: (i32, i32), mapa: &mut Mapa) -> (r: (
        usize,
        usize,
        Vec<Envio>,
    ))
        requires
            100 * old(self).barcos@.len() <= usize::MAX,
        ensures
            final(self)@ == (JugadorV {
                barcos: flota_tras_ataque(old(self)@.barcos, coordenadas_ataque),
                ..old(self)@
            }),
            r.0 == puntos_ataque(old(self)@.barcos, coordenadas_ataque),
            r.1 == monedas_ataque(old(self)@.barcos, coordenadas_ataque),
            envios_v(r.2@) == avisos_ataque(old(self)@.barcos, coordenadas_ataque, old(self)@.id),
            final(mapa)@ == (if r.0 > 0 {
                con_celda(old(mapa)@, coordenadas_ataque, HUNDIDO)
            } else {
                old(mapa)@
            }),
            misma_forma(old(mapa)@, final(mapa)@),
    {
        let r = atacar_barcos(&mut self.barcos, coordenadas_ataque, self.id);
        if r.0 > 0 {
            mapa.marcar_hundido(coordenadas_ataque);
        }
        r
    }

    /// Indica si al jugador le queda algun barco.
    pub fn esta_vivo(&self) -> (b: bool)
        ensures
            b == (self@.barcos.len() > 0),
    {
        self.barcos.len() > 0
    }

    /// Mensaje de comienzo de turno para el jugador: su vista del tablero,
    /// el resumen de su flota y sus monedas. Un jugador sin barcos no recibe
    /// nada.
    pub fn manejar_turno(&self, mapa: &Mapa) -> (r: Option<Mensaje>)
        ensures
            self@.barcos.len() == 0 ==> r is None,
            self@.barcos.len() > 0 ==> r is Some && r->0@ == MensajeV::Tablero(
                vista_de(mapa@, marcador_de(self.id as nat)),
                resumen_de(self@.barcos),
                self.monedas as nat,
            ),
    {
        if self.barcos.len() == 0 {
            return None;
        }
        let tablero = mapa.tablero_para(marcador(self.id));
        let resumen = mapa.serializar_barcos(&self.barcos);
        Some(Mensaje::Tablero(tablero, resumen, self.monedas))
    }

    /// Mensaje de fin de turno para el jugador: su puntaje.
    pub fn enviar_instrucciones(&self) -> (m: Mensaje)
        ensures
            m@ == MensajeV::Puntos(self.puntos as nat),
    {
        Mensaje::Puntos(self.puntos)
    }
}

} // verus!
