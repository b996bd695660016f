//! Text helpers: equality of string slices and decimal rendering.

use vstd::prelude::*;
use vstd::string::*;
use vstd::utf8::*;

verus! {

/// Whether two string slices hold the same characters.
///
/// The comparison runs over the UTF-8 bytes; equal encodings decode to equal
/// character sequences.
pub fn misma_cadena(a: &str, b: &str) -> (r: bool)
    ensures
        r == (a@ == b@),
{
    let x = a.as_bytes();
    let y = b.as_bytes();
    if x.len() != y.len() {
        return false;
    }
    let mut i: usize = 0;
    while i < x.len()
        invariant
            i <= x.len(),
            x.len() == y.len(),
            x@ == a.spec_bytes(),
            y@ == b.spec_bytes(),
            forall|j: int| 0 <= j < i ==> x@[j] == y@[j],
        decreases x.len() - i,
    {
        if x[i] != y[i] {
            return false;
        }
        i += 1;
    }
    proof {
        assert(x@ =~= y@);
        encode_utf8_decode_utf8(a@);
        encode_utf8_decode_utf8(b@);
    }
    true
}

/// The character string of a decimal digit.
pub open spec fn digito_spec(d: int) -> Seq<char> {
    if d == 0 {
        "0"@
    } else if d == 1 {
        "1"@
    } else if d == 2 {
        "2"@
    } else if d == 3 {
        "3"@
    } else if d == 4 {
        "4"@
    } else if d == 5 {
        "5"@
    } else if d == 6 {
        "6"@
    } else if d == 7 {
        "7"@
    } else if d == 8 {
        "8"@
    } else {
        "9"@
    }
}

/// The decimal numeral of a number, without leading zeros.
pub open spec fn decimal_spec(n: nat) -> Seq<char>
    decreases n,
{
    if n < 10 {
        digito_spec(n as int)
    } else {
        decimal_spec(n / 10) + digito_spec((n % 10) as int)
    }
}

/// The character string of a decimal digit.
pub fn digito(d: u64) -> (s: &'static str)
    requires
        d < 10,
    ensures
        s@ == digito_spec(d as int),
{
    if d == 0 {
        "0"
    } else if d == 1 {
        "1"
    } else if d == 2 {
        "2"
    } else if d == 3 {
        "3"
    } else if d == 4 {
        "4"
    } else if d == 5 {
        "5"
    } else if d == 6 {
        "6"
    } else if d == 7 {
        "7"
    } else if d == 8 {
        "8"
    } else {
        "9"
    }
}

/// The decimal numeral of a number, without leading zeros.
pub fn decimal(n: u64) -> (s: String)
    ensures
        s@ == decimal_spec(n as nat),
    decreases n,
{
    if n < 10 {
        String::from_str(digito(n))
    } else {
        let mut s = decimal(n / 10);
        s.append(digito(n % 10));
        s
    }
}

/// The last `ancho` decimal digits of a number, with leading zeros.
pub open spec fn digitos_fijos_spec(n: nat, ancho: nat) -> Seq<char>
    decreases ancho,
{
    if ancho == 0 {
        Seq::<char>::empty()
    } else {
        digitos_fijos_spec(n / 10, (ancho - 1) as nat) + digito_spec((n % 10) as int)
    }
}

/// Ten to the power `k`.
pub open spec fn potencia10(k: nat) -> nat
    decreases k,
{
    if k == 0 {
        1
    } else {
        10 * potencia10((k - 1) as nat)
    }
}

/// The magnitude of a count of millionths in units of `10^-decimales`,
/// rounded to the nearest unit, halves away from zero.
pub open spec fn redondeado_spec(valor: int, decimales: nat) -> nat {
    let unidad = potencia10((6 - decimales) as nat);
    let magnitud = if valor < 0 {
        -valor
    } else {
        valor
    };
    ((magnitud + unidad / 2) / (unidad as int)) as nat
}

/// The decimal text of a count of millionths with a fixed number of decimals,
/// at most six: a minus sign for a negative count, the whole part, and, when
/// there are decimals, a point and exactly that many digits.
pub open spec fn formato_fijo_spec(valor: int, decimales: nat) -> Seq<char> {
    let r = redondeado_spec(valor, decimales);
    let signo = if valor < 0 {
        "-"@
    } else {
        Seq::<char>::empty()
    };
    let entero = decimal_spec(r / potencia10(decimales));
    if decimales == 0 {
        signo + entero
    } else {
        signo + entero + "."@ + digitos_fijos_spec(r % potencia10(decimales), decimales)
    }
}

/// The texts of a sequence of probabilities with two decimals, separated by
/// commas.
pub open spec fn linea_csv_spec(fila: Seq<u32>) -> Seq<char>
    decreases fila.len(),
{
    if fila.len() == 0 {
        Seq::<char>::empty()
    } else if fila.len() == 1 {
        formato_fijo_spec(fila[0] as int, 2)
    } else {
        linea_csv_spec(fila.drop_last()) + ","@ + formato_fijo_spec(fila.last() as int, 2)
    }
}

/// The last `ancho` decimal digits of a number, with leading zeros.
pub fn digitos_fijos(n: u64, ancho: u32) -> (s: String)
    ensures
        s@ == digitos_fijos_spec(n as nat, ancho as nat),
    decreases ancho,
{
    if ancho == 0 {
        String::new()
    } else {
        let mut s = digitos_fijos(n / 10, ancho - 1);
        s.append(digito(n % 10));
        s
    }
}

/// Ten to the power `k`, for `k` up to six.
pub fn potencia_de_diez(k: u32) -> (r: u64)
    requires
        k <= 6,
    ensures
        r == potencia10(k as nat),
        1 <= r <= 1_000_000,
{
    proof {
        reveal_with_fuel(potencia10, 7);
    }
    if k == 0 {
        1
    } else if k == 1 {
        10
    } else if k == 2 {
        100
    } else if k == 3 {
        1_000
    } else if k == 4 {
        10_000
    } else if k == 5 {
        100_000
    } else {
        1_000_000
    }
}

/// The decimal text of a count of millionths with a fixed number of decimals.
pub fn formato_fijo(valor: i64, decimales: u32) -> (s: String)
    requires
        decimales <= 6,
    ensures
        s@ == formato_fijo_spec(valor as int, decimales as nat),
{
    let unidad = potencia_de_diez(6 - decimales);
    let magnitud: u64 = if valor < 0 {
        (-(valor as i128)) as u64
    } else {
        valor as u64
    };
    let r = (magnitud + unidad / 2) / unidad;
    let base = potencia_de_diez(decimales);
    let mut s = if valor < 0 {
        String::from_str("-")
    } else {
        String::new()
    };
    let entero = decimal(r / base);
    s.append(entero.as_str());
    if decimales > 0 {
        s.append(".");
        let fraccion = digitos_fijos(r % base, decimales);
        s.append(fraccion.as_str());
    }
    proof {
        assert(s@ =~= formato_fijo_spec(valor as int, decimales as nat));
    }
    s
}

/// One line of a matrix file: the probabilities of a row with two decimals,
/// separated by commas.
pub fn linea_csv(fila: &Vec<u32>) -> (s: String)
    ensures
        s@ == linea_csv_spec(fila@),
{
    let mut s = String::new();
    let mut i: usize = 0;
    while i < fila.len()
        invariant
            i <= fila@.len(),
            s@ == linea_csv_spec(fila@.take(i as int)),
        decreases fila@.len() - i,
    {
        let texto = formato_fijo(fila[i] as i64, 2);
        proof {
            let antes = fila@.take(i as int);
            let ahora = fila@.take(i + 1);
            assert(ahora.drop_last() =~= antes);
            assert(ahora.last() == fila@[i as int]);
        }
        if i > 0 {
            s.append(",");
        }
        s.append(texto.as_str());
        proof {
            assert(s@ =~= linea_csv_spec(fila@.take(i + 1)));
        }
        i += 1;
    }
    proof {
        assert(fila@.take(fila@.len() as int) =~= fila@);
    }
    s
}

/// The fields of a line: the stretches of characters between its commas. A
/// line without a comma is one field, an empty line one empty field.
pub open spec fn campos_spec(linea: Seq<char>) -> Seq<Seq<char>>
    decreases linea.len(),
{
    if linea.len() == 0 {
        seq![Seq::<char>::empty()]
    } else {
        let antes = campos_spec(linea.drop_last());
        if linea.last() == ',' {
            antes.push(Seq::<char>::empty())
        } else {
            antes.update(antes.len() - 1, antes.last().push(linea.last()))
        }
    }
}

/// The fields of a line put together again, each after the first behind a
/// comma.
pub open spec fn unir_spec(campos: Seq<Seq<char>>) -> Seq<char>
    decreases campos.len(),
{
    if campos.len() == 0 {
        Seq::<char>::empty()
    } else if campos.len() == 1 {
        campos[0]
    } else {
        unir_spec(campos.drop_last()) + seq![','] + campos.last()
    }
}

/// A line always has a field, and its fields joined by commas are the line.
pub proof fn lema_campos(linea: Seq<char>)
    ensures
        campos_spec(linea).len() >= 1,
        unir_spec(campos_spec(linea)) == linea,
        forall|i: int, j: int|
            0 <= i < campos_spec(linea).len() && 0 <= j < campos_spec(linea)[i].len()
                ==> #[trigger] campos_spec(linea)[i][j] != ',',
    decreases linea.len(),
{
    if linea.len() > 0 {
        let resto = linea.drop_last();
        lema_campos(resto);
        let antes = campos_spec(resto);
        let ahora = campos_spec(linea);
        if linea.last() == ',' {
            assert(ahora.drop_last() =~= antes);
            assert(unir_spec(ahora) =~= unir_spec(antes) + seq![','] + Seq::<char>::empty());
            assert(unir_spec(ahora) =~= linea);
        } else {
            let ultimo = antes.last().push(linea.last());
            assert(ahora.last() == ultimo);
            if antes.len() == 1 {
                assert(unir_spec(ahora) =~= linea);
            } else {
                assert(ahora.drop_last() =~= antes.drop_last());
                assert(unir_spec(antes) == unir_spec(antes.drop_last()) + seq![','] + antes.last());
                assert(unir_spec(ahora) =~= unir_spec(antes).push(linea.last()));
                assert(unir_spec(ahora) =~= linea);
            }
            assert forall|i: int, j: int|
                0 <= i < ahora.len() && 0 <= j < ahora[i].len() implies #[trigger] ahora[i][j]
                != ',' by {
                if i < antes.len() - 1 {
                    assert(ahora[i] == antes[i]);
                } else if j < antes.last().len() {
                    assert(ahora[i][j] == antes[i][j]);
                }
            }
        }
    }
}

/// The fields of a line: the stretches of characters between its commas.
pub fn separar_campos(linea: &str) -> (campos: Vec<String>)
    ensures
        campos@.len() == campos_spec(linea@).len(),
        forall|i: int|
            0 <= i < campos@.len() ==> (#[trigger] campos@[i])@ == campos_spec(linea@)[i],
{
    let n = linea.unicode_len();
    let mut campos: Vec<String> = Vec::new();
    let mut inicio: usize = 0;
    let mut i: usize = 0;
    proof {
        assert(linea@.take(0) =~= Seq::<char>::empty());
        assert(linea@.subrange(0, 0) =~= Seq::<char>::empty());
    }
    while i < n
        invariant
            n == linea@.len(),
            inicio <= i <= n,
            campos_spec(linea@.take(i as int)).len() == campos@.len() + 1,
            forall|k: int|
                0 <= k < campos@.len() ==> (#[trigger] campos@[k])@ == campos_spec(
                    linea@.take(i as int),
                )[k],
            campos_spec(linea@.take(i as int)).last() == linea@.subrange(inicio as int, i as int),
        decreases n - i,
    {
        let c = linea.get_char(i);
        let ghost antes = campos_spec(linea@.take(i as int));
        let ghost viejos = campos@;
        proof {
            let ahora = linea@.take(i + 1);
            assert(ahora.drop_last() =~= linea@.take(i as int));
            assert(ahora.last() == c);
        }
        if c == ',' {
            campos.push(String::from_str(linea.substring_char(inicio, i)));
            inicio = i + 1;
            proof {
                assert(linea@.subrange(inicio as int, i + 1) =~= Seq::<char>::empty());
                let despues = campos_spec(linea@.take(i + 1));
                assert forall|k: int| 0 <= k < campos@.len() implies (#[trigger] campos@[k])@
                    == despues[k] by {
                    if k < viejos.len() {
                        assert(campos@[k] == viejos[k]);
                    }
                }
            }
        } else {
            proof {
                assert(linea@.subrange(inicio as int, i + 1) =~= linea@.subrange(
                    inicio as int,
                    i as int,
                ).push(c));
            }
        }
        i += 1;
    }
    campos.push(String::from_str(linea.substring_char(inicio, n)));
    proof {
        assert(linea@.take(n as int) =~= linea@);
    }
    campos
}

} // verus!
