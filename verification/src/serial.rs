//! Serial diagnostic channel: a UART handed over by the embedding
//! environment, initialized once, with a byte sink whose transcript of
//! sent bytes the contracts track.

use vstd::prelude::*;

verus! {

/// `uart_16550::SerialPort` drives one hardware UART through port-mapped
/// I/O; its construction is the embedding environment's business.
#[verifier::external_type_specification]
#[verifier::external_body]
pub struct ExSerialPort(uart_16550::SerialPort);

/// Relies on `uart_16550::SerialPort::init`: configures the line settings
/// of the port once; the fixed settings are the host emulator's concern.
#[verifier::external_body]
fn port_init(port: &mut uart_16550::SerialPort) {
    port.init()
}

/// Relies on `uart_16550::SerialPort::send`: blocks until the controller
/// accepts the byte and hands it over for transmission (backspace and
/// delete go out as a rub-out sequence); on correctly initialized hardware
/// it does not fail and does not panic.
#[verifier::external_body]
fn port_send(port: &mut uart_16550::SerialPort, b: u8) {
    port.send(b)
}

/// The serial channel: the initialized port and the transcript of every
/// byte handed to it, oldest first.
pub struct SerialChannel {
    port: uart_16550::SerialPort,
    sent: Ghost<Seq<u8>>,
}

impl SerialChannel {
    /// All bytes handed to the port since the channel was built, oldest
    /// first.
    pub closed spec fn transcript(self) -> Seq<u8> {
        self.sent@
    }

    /// Build the channel around a port the environment constructed,
    /// initializing it exactly once, here.
    pub fn new(port: uart_16550::SerialPort) -> (s: SerialChannel)
        ensures
            s.transcript() == Seq::<u8>::empty(),
    {
        let mut port = port;
        port_init(&mut port);
        SerialChannel { port, sent: Ghost(Seq::empty()) }
    }

    /// Send one byte.
    pub fn write_byte(&mut self, b: u8)
        ensures
            final(self).transcript() == old(self).transcript().push(b),
    {
        port_send(&mut self.port, b);
        self.sent = Ghost(self.sent@.push(b));
    }

    /// Send a whole byte sequence, in order.
    pub fn write_bytes(&mut self, bytes: &[u8])
        ensures
            final(self).transcript() == old(self).transcript() + bytes@,
    {
        let ghost start = self.transcript();
        proof {
            assert(start + bytes@.take(0) =~= start);
        }
        let mut i: usize = 0;
        while i < bytes.len()
            invariant
                i <= bytes@.len(),
                self.transcript() == start + bytes@.take(i as int),
            decreases bytes@.len() - i,
        {
            self.write_byte(bytes[i]);
            proof {
                assert(bytes@.take(i as int + 1) =~= bytes@.take(i as int).push(bytes@[i as int]));
                assert(start + bytes@.take(i as int + 1) =~= (start + bytes@.take(i as int)).push(
                    bytes@[i as int],
                ));
            }
            i = i + 1;
        }
        proof {
            assert(bytes@.take(bytes@.len() as int) =~= bytes@);
            assert(start + bytes@ =~= self.transcript());
        }
    }
}

} // verus!
